//! The visibility predicate composer.
//!
//! Each access-control dimension is one named predicate over a
//! candidate row; a listing evaluates their conjunction in a single
//! pass over one snapshot, so the visibility decision is atomic with
//! respect to the data it reads.  Every predicate has a defined
//! behavior for the unauthenticated viewer.

use vstd::prelude::*;
use crate::ids::PersonId;
use crate::model::{CommunityFollowerState, CommunityVisibility, ListingType, Site};
use crate::query::CommentQuery;
use crate::view::CommentView;
use crate::viewer::ViewerContext;

verus! {

/// The viewer's person id, when authenticated.
pub open spec fn viewer_person(v: Option<ViewerContext>) -> Option<PersonId> {
    match v {
        Some(c) => Some(c.person_id),
        None => None,
    }
}

/// The viewer is an authenticated admin.
pub open spec fn viewer_is_admin(v: Option<ViewerContext>) -> bool {
    match v {
        Some(c) => c.is_admin,
        None => false,
    }
}

/// The viewer opted in to NSFW content; the unauthenticated viewer
/// has not.
pub open spec fn viewer_shows_nsfw(v: Option<ViewerContext>) -> bool {
    match v {
        Some(c) => c.show_nsfw,
        None => false,
    }
}

/// The viewer shows bot-authored items; the unauthenticated viewer
/// does.
pub open spec fn viewer_shows_bots(v: Option<ViewerContext>) -> bool {
    match v {
        Some(c) => c.show_bot_accounts,
        None => true,
    }
}

/// The row's creator is the viewer themself.
pub open spec fn row_is_own(v: Option<ViewerContext>, r: CommentView) -> bool {
    viewer_person(v) == Some(r.comment.creator_id)
}

/// Scope: the row matches the requested creator, post, community,
/// and subtree, where given.  Subtree scope is proper descent: the
/// item the parent path names is itself excluded.
pub open spec fn spec_scope_ok(q: CommentQuery, r: CommentView) -> bool {
    &&& (q.creator_id matches Some(c) ==> r.comment.creator_id == c)
    &&& (q.post_id matches Some(p) ==> r.comment.post_id == p)
    &&& (q.community_id matches Some(c) ==> r.post.community_id == c)
    &&& (q.parent_path matches Some(p) ==> r.comment.path.spec_descends_from(p))
}

/// Listing type: `Subscribed` needs a follow, `Local` a local
/// community, `ModeratorView` a moderator relation; `All` admits
/// every community.
pub open spec fn spec_listing_type_ok(q: CommentQuery, r: CommentView) -> bool {
    match q.spec_listing_type() {
        ListingType::All => true,
        ListingType::Local => r.community.local,
        ListingType::Subscribed => r.community_actions matches Some(a) && a.followed_at is Some,
        ListingType::ModeratorView => r.community_actions matches Some(a)
            && a.became_moderator_at is Some,
    }
}

/// Liked/disliked restriction: only the viewer's own votes on other
/// people's items qualify, and `liked_only` takes precedence when
/// both flags are set.
pub open spec fn spec_vote_scope_ok(q: CommentQuery, r: CommentView) -> bool {
    if q.viewer is Some {
        if q.liked_only matches Some(true) {
            !row_is_own(q.viewer, r) && (r.comment_actions matches Some(a) && a.like_score
                == Some(1i16))
        } else if q.disliked_only matches Some(true) {
            !row_is_own(q.viewer, r) && (r.comment_actions matches Some(a) && a.like_score == Some(
                -1i16,
            ))
        } else {
            true
        }
    } else {
        true
    }
}

/// Bot accounts: hidden from viewers who opted out.
pub open spec fn spec_bot_ok(v: Option<ViewerContext>, r: CommentView) -> bool {
    viewer_shows_bots(v) || !r.creator.bot_account
}

/// Language: authenticated viewers in non-moderator listings see
/// only their enabled languages (the empty set enabling all).
pub open spec fn spec_language_ok(q: CommentQuery, r: CommentView) -> bool {
    match q.viewer {
        Some(c) => q.spec_listing_type() == ListingType::ModeratorView
            || c.spec_language_enabled(r.comment.language_id),
        None => true,
    }
}

/// Blocks: a creator the viewer blocked, directly or via instance,
/// is excluded — unless the item is the viewer's own.
pub open spec fn spec_block_ok(v: Option<ViewerContext>, r: CommentView) -> bool {
    match v {
        Some(c) => row_is_own(v, r) || (!c.spec_blocks_person(r.comment.creator_id)
            && !c.spec_blocks_instance(r.creator.instance_id)),
        None => true,
    }
}

/// NSFW in listings: an item of an NSFW post or community is shown
/// only to a viewer who opted in, and only on a site that carries a
/// content warning.
pub open spec fn spec_nsfw_listing_ok(
    v: Option<ViewerContext>,
    site: Site,
    r: CommentView,
) -> bool {
    (r.post.nsfw || r.community.nsfw) ==> (viewer_shows_nsfw(v) && site.content_warning is Some)
}

/// NSFW in single-item reads: gated by the viewer preference alone.
pub open spec fn spec_nsfw_single_ok(v: Option<ViewerContext>, r: CommentView) -> bool {
    (r.post.nsfw || r.community.nsfw) ==> viewer_shows_nsfw(v)
}

/// Community visibility: the unauthenticated viewer sees only public
/// communities.
pub open spec fn spec_community_open_ok(v: Option<ViewerContext>, r: CommentView) -> bool {
    v is Some || r.community.visibility == CommunityVisibility::Public
}

/// Federation-pending items are visible only to their own creator.
pub open spec fn spec_federation_ok(v: Option<ViewerContext>, r: CommentView) -> bool {
    !r.comment.federation_pending || row_is_own(v, r)
}

/// Private communities: content is visible only to admins and to
/// viewers whose follow was accepted.
pub open spec fn spec_private_ok(v: Option<ViewerContext>, r: CommentView) -> bool {
    r.community.visibility == CommunityVisibility::Private ==> (viewer_is_admin(v) || (
    r.community_actions matches Some(a) && a.follow_state == Some(
        CommunityFollowerState::Accepted,
    )))
}

/// Time range: the item was published inside the trailing window
/// ending at the query's reference time.
pub open spec fn spec_time_ok(q: CommentQuery, now: i64, r: CommentView) -> bool {
    match q.time_range_seconds {
        Some(t) => r.comment.published_at as int > now as int - t as int,
        None => true,
    }
}

/// The absolute path-length ceiling of a depth-limited fetch: the
/// parent's path length plus the requested depth, or the depth alone
/// when unscoped (a root item has path length 1 and depth 0).
pub open spec fn spec_depth_ceiling(q: CommentQuery, d: i32) -> int {
    match q.parent_path {
        Some(p) => p.segments@.len() + d,
        None => d as int,
    }
}

/// Depth: in a depth-limited fetch the row's path must not exceed
/// the ceiling.
pub open spec fn spec_depth_ok(q: CommentQuery, r: CommentView) -> bool {
    match q.max_depth {
        Some(d) => r.comment.path.segments@.len() <= spec_depth_ceiling(q, d),
        None => true,
    }
}

/// The full conjunction a listing applies to each candidate row.
pub open spec fn spec_listing_visible(q: CommentQuery, site: Site, now: i64, r: CommentView) -> bool {
    &&& spec_scope_ok(q, r)
    &&& spec_listing_type_ok(q, r)
    &&& spec_vote_scope_ok(q, r)
    &&& spec_bot_ok(q.viewer, r)
    &&& spec_language_ok(q, r)
    &&& spec_block_ok(q.viewer, r)
    &&& spec_nsfw_listing_ok(q.viewer, site, r)
    &&& spec_community_open_ok(q.viewer, r)
    &&& spec_federation_ok(q.viewer, r)
    &&& spec_private_ok(q.viewer, r)
    &&& spec_time_ok(q, now, r)
    &&& spec_depth_ok(q, r)
}

/// The conjunction a single-item read applies: scope-free, language-
/// and bot-free, with NSFW gated by viewer preference alone.
pub open spec fn spec_single_visible(v: Option<ViewerContext>, r: CommentView) -> bool {
    &&& spec_block_ok(v, r)
    &&& spec_nsfw_single_ok(v, r)
    &&& spec_community_open_ok(v, r)
    &&& spec_federation_ok(v, r)
    &&& spec_private_ok(v, r)
}

/// The viewer is this row's creator.
fn is_own_row(v: &Option<ViewerContext>, r: &CommentView) -> (b: bool)
    ensures
        b == row_is_own(*v, *r),
{
    match v {
        Some(c) => c.person_id.0 == r.comment.creator_id.0,
        None => false,
    }
}

/// Evaluate the scope predicate.
pub fn scope_ok(q: &CommentQuery, r: &CommentView) -> (b: bool)
    ensures
        b == spec_scope_ok(*q, *r),
{
    let creator_ok = match &q.creator_id {
        Some(c) => r.comment.creator_id.0 == c.0,
        None => true,
    };
    let post_ok = match &q.post_id {
        Some(p) => r.comment.post_id.0 == p.0,
        None => true,
    };
    let community_ok = match &q.community_id {
        Some(c) => r.post.community_id.0 == c.0,
        None => true,
    };
    let subtree_ok = match &q.parent_path {
        Some(p) => r.comment.path.descends_from(p),
        None => true,
    };
    creator_ok && post_ok && community_ok && subtree_ok
}

/// Evaluate the listing-type predicate.
pub fn listing_type_ok(q: &CommentQuery, r: &CommentView) -> (b: bool)
    ensures
        b == spec_listing_type_ok(*q, *r),
{
    let lt = match q.listing_type {
        Some(t) => t,
        None => ListingType::All,
    };
    match lt {
        ListingType::All => true,
        ListingType::Local => r.community.local,
        ListingType::Subscribed => match &r.community_actions {
            Some(a) => a.followed_at.is_some(),
            None => false,
        },
        ListingType::ModeratorView => match &r.community_actions {
            Some(a) => a.became_moderator_at.is_some(),
            None => false,
        },
    }
}

/// Evaluate the liked/disliked predicate.
pub fn vote_scope_ok(q: &CommentQuery, r: &CommentView) -> (b: bool)
    ensures
        b == spec_vote_scope_ok(*q, *r),
{
    if q.viewer.is_some() {
        let liked = matches!(q.liked_only, Some(true));
        let disliked = matches!(q.disliked_only, Some(true));
        if liked || disliked {
            let want: i16 = if liked {
                1
            } else {
                -1
            };
            let vote_ok = match &r.comment_actions {
                Some(a) => match a.like_score {
                    Some(s) => s == want,
                    None => false,
                },
                None => false,
            };
            !is_own_row(&q.viewer, r) && vote_ok
        } else {
            true
        }
    } else {
        true
    }
}

/// Evaluate the bot-account predicate.
pub fn bot_ok(v: &Option<ViewerContext>, r: &CommentView) -> (b: bool)
    ensures
        b == spec_bot_ok(*v, *r),
{
    let shows = match v {
        Some(c) => c.show_bot_accounts,
        None => true,
    };
    shows || !r.creator.bot_account
}

/// Evaluate the language predicate.
pub fn language_ok(q: &CommentQuery, r: &CommentView) -> (b: bool)
    ensures
        b == spec_language_ok(*q, *r),
{
    match &q.viewer {
        Some(c) => {
            let lt = match q.listing_type {
                Some(t) => t,
                None => ListingType::All,
            };
            if matches!(lt, ListingType::ModeratorView) {
                true
            } else {
                c.language_enabled(r.comment.language_id)
            }
        },
        None => true,
    }
}

/// Evaluate the block predicate.
pub fn block_ok(v: &Option<ViewerContext>, r: &CommentView) -> (b: bool)
    ensures
        b == spec_block_ok(*v, *r),
{
    match v {
        Some(c) => is_own_row(v, r) || (!c.blocks_person(r.comment.creator_id)
            && !c.blocks_instance(r.creator.instance_id)),
        None => true,
    }
}

/// Evaluate the listing NSFW predicate.
pub fn nsfw_listing_ok(v: &Option<ViewerContext>, site: &Site, r: &CommentView) -> (b: bool)
    ensures
        b == spec_nsfw_listing_ok(*v, *site, *r),
{
    if r.post.nsfw || r.community.nsfw {
        let shows = match v {
            Some(c) => c.show_nsfw,
            None => false,
        };
        shows && site.content_warning.is_some()
    } else {
        true
    }
}

/// Evaluate the single-read NSFW predicate.
pub fn nsfw_single_ok(v: &Option<ViewerContext>, r: &CommentView) -> (b: bool)
    ensures
        b == spec_nsfw_single_ok(*v, *r),
{
    if r.post.nsfw || r.community.nsfw {
        match v {
            Some(c) => c.show_nsfw,
            None => false,
        }
    } else {
        true
    }
}

/// Evaluate the open-community predicate.
pub fn community_open_ok(v: &Option<ViewerContext>, r: &CommentView) -> (b: bool)
    ensures
        b == spec_community_open_ok(*v, *r),
{
    v.is_some() || matches!(r.community.visibility, CommunityVisibility::Public)
}

/// Evaluate the federation-pending predicate.
pub fn federation_ok(v: &Option<ViewerContext>, r: &CommentView) -> (b: bool)
    ensures
        b == spec_federation_ok(*v, *r),
{
    !r.comment.federation_pending || is_own_row(v, r)
}

/// Evaluate the private-community predicate.
pub fn private_ok(v: &Option<ViewerContext>, r: &CommentView) -> (b: bool)
    ensures
        b == spec_private_ok(*v, *r),
{
    if matches!(r.community.visibility, CommunityVisibility::Private) {
        let is_admin = match v {
            Some(c) => c.is_admin,
            None => false,
        };
        let accepted = match &r.community_actions {
            Some(a) => matches!(a.follow_state, Some(CommunityFollowerState::Accepted)),
            None => false,
        };
        is_admin || accepted
    } else {
        true
    }
}

/// Evaluate the time-range predicate.
pub fn time_ok(q: &CommentQuery, now: i64, r: &CommentView) -> (b: bool)
    ensures
        b == spec_time_ok(*q, now, *r),
{
    match q.time_range_seconds {
        Some(t) => (r.comment.published_at as i128) > (now as i128) - (t as i128),
        None => true,
    }
}

/// Evaluate the depth predicate.
pub fn depth_ok(q: &CommentQuery, r: &CommentView) -> (b: bool)
    ensures
        b == spec_depth_ok(*q, *r),
{
    match q.max_depth {
        Some(d) => {
            let ceiling: i128 = match &q.parent_path {
                Some(p) => (p.segments.len() as i128) + (d as i128),
                None => d as i128,
            };
            (r.comment.path.segments.len() as i128) <= ceiling
        },
        None => true,
    }
}

/// Evaluate the full listing conjunction on one row, in one pass.
pub fn listing_visible(q: &CommentQuery, site: &Site, now: i64, r: &CommentView) -> (b: bool)
    ensures
        b == spec_listing_visible(*q, *site, now, *r),
{
    scope_ok(q, r) && listing_type_ok(q, r) && vote_scope_ok(q, r) && bot_ok(&q.viewer, r)
        && language_ok(q, r) && block_ok(&q.viewer, r) && nsfw_listing_ok(&q.viewer, site, r)
        && community_open_ok(&q.viewer, r) && federation_ok(&q.viewer, r) && private_ok(
        &q.viewer,
        r,
    ) && time_ok(q, now, r) && depth_ok(q, r)
}

/// Evaluate the single-read conjunction on one row.
pub fn single_visible(v: &Option<ViewerContext>, r: &CommentView) -> (b: bool)
    ensures
        b == spec_single_visible(*v, *r),
{
    block_ok(v, r) && nsfw_single_ok(v, r) && community_open_ok(v, r) && federation_ok(v, r)
        && private_ok(v, r)
}

} // verus!

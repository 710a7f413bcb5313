//! The engine's global guarantees, stated and proved once over the
//! specification functions that the entry points' contracts use.
//!
//! Each lemma here is a public statement about every snapshot, query
//! and viewer; the contracts of [`crate::engine`] connect them to
//! what `list` and `read` actually return.

use vstd::prelude::*;
use crate::cursor::CursorKey;
use crate::engine::{spec_find_visible, spec_full_listing, spec_is_page, spec_visible_rows};
use crate::ids::CommentId;
use crate::model::{CommentSortType, CommunityFollowerState, CommunityVisibility, ListingType, Site};
use crate::order::{
    lemma_sort_rows_props, lemma_sort_rows_unique, rows_sorted, spec_key_lt, spec_ranking_of,
    spec_row_key, spec_row_lt, unique_ids, Ranking,
};
use crate::paginate::{lemma_cursor_pos_at, spec_cursor_pos};
use crate::pred::{spec_listing_visible, spec_single_visible, viewer_is_admin};
use crate::query::{CommentQuery, GetCommentsResponse};
use crate::redact::{is_projection_of, spec_can_mod};
use crate::view::CommentView;
use crate::viewer::ViewerContext;

verus! {

/// Every row of the full listing passed the visibility conjunction.
pub proof fn lemma_listing_member_visible(
    q: CommentQuery,
    site: Site,
    now: i64,
    snapshot: Seq<CommentView>,
    row: CommentView,
)
    requires
        spec_full_listing(q, site, now, snapshot).contains(row),
    ensures
        spec_listing_visible(q, site, now, row),
{
    let cl = |r: CommentView| spec_listing_visible(q, site, now, r);
    let kept = spec_visible_rows(q, site, now, snapshot);
    lemma_sort_rows_props(spec_ranking_of(q), kept);
    assert(kept.contains(row));
    let i = choose|i: int| 0 <= i < kept.len() && kept[i] == row;
    snapshot.lemma_filter_pred(cl, i);
}

/// `out` is the projection, for this viewer, of some row of `full`.
pub open spec fn spec_comes_from(
    full: Seq<CommentView>,
    v: Option<ViewerContext>,
    out: CommentView,
) -> bool {
    exists|row: CommentView|
        #![trigger is_projection_of(out, row, v)]
        full.contains(row) && is_projection_of(out, row, v)
}

/// Conversely, every snapshot row that passes the visibility
/// conjunction is in the full listing: nothing visible is dropped.
pub proof fn lemma_visible_member_present(
    q: CommentQuery,
    site: Site,
    now: i64,
    snapshot: Seq<CommentView>,
    i: int,
)
    requires
        0 <= i < snapshot.len(),
        spec_listing_visible(q, site, now, snapshot[i]),
    ensures
        spec_full_listing(q, site, now, snapshot).contains(snapshot[i]),
{
    let cl = |r: CommentView| spec_listing_visible(q, site, now, r);
    let kept = spec_visible_rows(q, site, now, snapshot);
    snapshot.lemma_filter_contains(cl, i);
    lemma_sort_rows_props(spec_ranking_of(q), kept);
}

/// What a successful single-item read found: a snapshot row that
/// carries the requested id and is visible to the viewer.
pub proof fn lemma_find_visible_props(
    snapshot: Seq<CommentView>,
    id: CommentId,
    v: Option<ViewerContext>,
)
    ensures
        spec_find_visible(snapshot, id, v) matches Some(row) ==> {
            &&& snapshot.contains(row)
            &&& row.comment.id == id
            &&& spec_single_visible(v, row)
        },
    decreases snapshot.len(),
{
    if snapshot.len() > 0 {
        let first = snapshot.first();
        if first.comment.id == id && spec_single_visible(v, first) {
            assert(snapshot[0] == first);
        } else {
            let tail = snapshot.drop_first();
            lemma_find_visible_props(tail, id, v);
            match spec_find_visible(tail, id, v) {
                Some(row) => {
                    let k = choose|k: int| 0 <= k < tail.len() && tail[k] == row;
                    assert(snapshot[k + 1] == row);
                },
                None => {},
            }
        }
    }
}

/// Every returned page row is the projection of some row of the full
/// listing; with the absence lemmas below this closes the argument
/// that an excluded row reaches no response.
pub proof fn lemma_page_rows_from_listing(
    resp: GetCommentsResponse,
    q: CommentQuery,
    full: Seq<CommentView>,
    start: int,
    end: int,
    paged: bool,
)
    requires
        spec_is_page(resp, q, full, start, end, paged),
    ensures
        forall|i: int|
            0 <= i < resp.comments@.len() ==> spec_comes_from(
                full,
                q.viewer,
                #[trigger] resp.comments@[i],
            ),
{
    assert forall|i: int| 0 <= i < resp.comments@.len() implies spec_comes_from(
        full,
        q.viewer,
        resp.comments@[i],
    ) by {
        let row = full[start + i];
        assert(full.contains(row));
        assert(is_projection_of(resp.comments@[i], row, q.viewer));
    }
}

/// A creator the viewer has blocked, directly or via instance, has
/// no item of theirs in any listing for that viewer (items the
/// viewer authored themself excepted).
pub proof fn lemma_blocked_creator_absent(
    q: CommentQuery,
    site: Site,
    now: i64,
    snapshot: Seq<CommentView>,
    row: CommentView,
)
    requires
        q.viewer matches Some(c) && (c.spec_blocks_person(row.comment.creator_id)
            || c.spec_blocks_instance(row.creator.instance_id)) && c.person_id
            != row.comment.creator_id,
    ensures
        !spec_full_listing(q, site, now, snapshot).contains(row),
{
    if spec_full_listing(q, site, now, snapshot).contains(row) {
        lemma_listing_member_visible(q, site, now, snapshot, row);
    }
}

/// A single-item read by a viewer who blocked the creator of every
/// row carrying the id finds nothing.
pub proof fn lemma_blocked_creator_read_not_found(
    snapshot: Seq<CommentView>,
    id: CommentId,
    v: Option<ViewerContext>,
)
    requires
        v matches Some(c) && forall|i: int|
            0 <= i < snapshot.len() && (#[trigger] snapshot[i]).comment.id == id ==> ((
            c.spec_blocks_person(snapshot[i].comment.creator_id) || c.spec_blocks_instance(
                snapshot[i].creator.instance_id,
            )) && c.person_id != snapshot[i].comment.creator_id),
    ensures
        spec_find_visible(snapshot, id, v) is None,
    decreases snapshot.len(),
{
    if snapshot.len() > 0 {
        let tail = snapshot.drop_first();
        assert(snapshot[0] == snapshot.first());
        assert(!(snapshot.first().comment.id == id && spec_single_visible(v, snapshot.first())));
        assert forall|i: int|
            0 <= i < tail.len() && (#[trigger] tail[i]).comment.id == id implies ((
            v->Some_0.spec_blocks_person(tail[i].comment.creator_id)
                || v->Some_0.spec_blocks_instance(tail[i].creator.instance_id))
            && v->Some_0.person_id != tail[i].comment.creator_id) by {
            assert(tail[i] == snapshot[i + 1]);
        }
        lemma_blocked_creator_read_not_found(tail, id, v);
    }
}

/// An item of a private community is in no listing for a viewer who
/// is neither an admin nor an accepted follower of that community.
pub proof fn lemma_private_community_absent(
    q: CommentQuery,
    site: Site,
    now: i64,
    snapshot: Seq<CommentView>,
    row: CommentView,
)
    requires
        row.community.visibility == CommunityVisibility::Private,
        !viewer_is_admin(q.viewer),
        !(row.community_actions matches Some(a) && a.follow_state == Some(
            CommunityFollowerState::Accepted,
        )),
    ensures
        !spec_full_listing(q, site, now, snapshot).contains(row),
{
    if spec_full_listing(q, site, now, snapshot).contains(row) {
        lemma_listing_member_visible(q, site, now, snapshot, row);
    }
}

/// A single-item read in a private community finds nothing for a
/// viewer who is neither an admin nor an accepted follower.
pub proof fn lemma_private_community_read_not_found(
    snapshot: Seq<CommentView>,
    id: CommentId,
    v: Option<ViewerContext>,
)
    requires
        !viewer_is_admin(v),
        forall|i: int|
            0 <= i < snapshot.len() && (#[trigger] snapshot[i]).comment.id == id ==> (
            snapshot[i].community.visibility == CommunityVisibility::Private && !(
            snapshot[i].community_actions matches Some(a) && a.follow_state == Some(
                CommunityFollowerState::Accepted,
            ))),
    ensures
        spec_find_visible(snapshot, id, v) is None,
    decreases snapshot.len(),
{
    if snapshot.len() > 0 {
        let tail = snapshot.drop_first();
        assert(snapshot[0] == snapshot.first());
        assert(!(snapshot.first().comment.id == id && spec_single_visible(v, snapshot.first())));
        assert forall|i: int|
            0 <= i < tail.len() && (#[trigger] tail[i]).comment.id == id implies (
            tail[i].community.visibility == CommunityVisibility::Private && !(
            tail[i].community_actions matches Some(a) && a.follow_state == Some(
                CommunityFollowerState::Accepted,
            ))) by {
            assert(tail[i] == snapshot[i + 1]);
        }
        lemma_private_community_read_not_found(tail, id, v);
    }
}

/// Redaction: a removed or deleted item is shown with an empty body
/// to a viewer who is neither an admin nor a moderator of the owning
/// community, and with its true body to one who is.  Listing and
/// single-item reads both return rows only through this projection.
pub proof fn lemma_redaction(out: CommentView, inp: CommentView, v: Option<ViewerContext>)
    requires
        is_projection_of(out, inp, v),
        inp.comment.removed || inp.comment.deleted,
    ensures
        !spec_can_mod(v, inp) ==> out.comment.content@ == Seq::<char>::empty(),
        spec_can_mod(v, inp) ==> out.comment.content@ == inp.comment.content@,
{
}

/// An authenticated viewer with a non-empty language selection sees
/// no item of a language outside it in any non-moderator listing.
pub proof fn lemma_language_filtered(
    q: CommentQuery,
    site: Site,
    now: i64,
    snapshot: Seq<CommentView>,
    row: CommentView,
)
    requires
        q.viewer matches Some(c) && c.enabled_language_ids@.len() > 0
            && !c.enabled_language_ids@.contains(row.comment.language_id),
        q.spec_listing_type() != ListingType::ModeratorView,
    ensures
        !spec_full_listing(q, site, now, snapshot).contains(row),
{
    if spec_full_listing(q, site, now, snapshot).contains(row) {
        lemma_listing_member_visible(q, site, now, snapshot, row);
    }
}

/// Distinguished first: in a listing scoped to a post or subtree, a
/// distinguished item never follows a non-distinguished one,
/// whatever the chosen sort.
pub proof fn lemma_distinguished_first(
    q: CommentQuery,
    site: Site,
    now: i64,
    snapshot: Seq<CommentView>,
    i: int,
    j: int,
)
    requires
        q.spec_scoped(),
        q.max_depth is None,
        0 <= i < j < spec_full_listing(q, site, now, snapshot).len(),
    ensures
        spec_full_listing(q, site, now, snapshot)[j].comment.distinguished
            ==> spec_full_listing(q, site, now, snapshot)[i].comment.distinguished,
{
    let rk = spec_ranking_of(q);
    let kept = spec_visible_rows(q, site, now, snapshot);
    lemma_sort_rows_props(rk, kept);
    let full = spec_full_listing(q, site, now, snapshot);
    if full[j].comment.distinguished && !full[i].comment.distinguished {
        assert(spec_row_lt(rk, full[j], full[i])) by {
            assert(rk.scoped && !rk.by_path);
        }
        assert(!spec_row_lt(rk, full[j], full[i]));
    }
}

/// The full listing of a snapshot with distinct item ids is sorted
/// and keeps the ids distinct; the pagination laws below then apply
/// to it.
pub proof fn lemma_full_listing_ranked(q: CommentQuery, site: Site, now: i64, snapshot: Seq<
    CommentView,
>)
    requires
        unique_ids(snapshot),
    ensures
        rows_sorted(spec_ranking_of(q), spec_full_listing(q, site, now, snapshot)),
        unique_ids(spec_full_listing(q, site, now, snapshot)),
        spec_full_listing(q, site, now, snapshot).len() <= snapshot.len(),
{
    let cl = |r: CommentView| spec_listing_visible(q, site, now, r);
    let kept = spec_visible_rows(q, site, now, snapshot);
    lemma_filter_unique_ids(snapshot, cl);
    broadcast use vstd::seq_lib::group_filter_ensures;

    lemma_sort_rows_props(spec_ranking_of(q), kept);
    lemma_sort_rows_unique(spec_ranking_of(q), kept);
}

/// Filtering preserves distinctness of item ids.
proof fn lemma_filter_unique_ids(s: Seq<CommentView>, pred: spec_fn(CommentView) -> bool)
    requires
        unique_ids(s),
    ensures
        unique_ids(s.filter(pred)),
        s.filter(pred).len() <= s.len(),
    decreases s.len(),
{
    reveal(Seq::filter);
    if s.len() > 0 {
        let p = s.drop_last();
        assert(unique_ids(p)) by {
            assert forall|i: int, j: int|
                #![trigger p[i].comment.id.0, p[j].comment.id.0]
                0 <= i < j < p.len() implies p[i].comment.id.0 != p[j].comment.id.0 by {
                assert(p[i] == s[i] && p[j] == s[j]);
            }
        }
        lemma_filter_unique_ids(p, pred);
        let fp = p.filter(pred);
        if pred(s.last()) {
            assert(s.filter(pred) == fp.push(s.last()));
            assert forall|k: int| 0 <= k < fp.len() implies #[trigger] fp[k].comment.id.0
                != s.last().comment.id.0 by {
                assert(fp.contains(fp[k]));
                p.lemma_filter_contains_rev(pred, fp[k]);
                let m = choose|m: int| 0 <= m < p.len() && p[m] == fp[k];
                assert(s[m] == fp[k]);
                assert(s[m].comment.id.0 != s[s.len() - 1].comment.id.0);
            }
            let out = fp.push(s.last());
            assert forall|i: int, j: int|
                #![trigger out[i].comment.id.0, out[j].comment.id.0]
                0 <= i < j < out.len() implies out[i].comment.id.0 != out[j].comment.id.0 by {
                if j < out.len() - 1 {
                    assert(out[i] == fp[i] && out[j] == fp[j]);
                } else {
                    assert(out[i] == fp[i] && out[j] == s.last());
                }
            }
        }
    }
}

/// Pagination tiles the listing: the cursor taken from the row at
/// `e - 1` resumes exactly at `e`, so the page fetched through a
/// response's `next_page` begins where the previous page ended —
/// concatenating pages yields a contiguous stretch of the full
/// listing, with no duplicate and no gap.
pub proof fn lemma_next_page_continues(
    sort: CommentSortType,
    scoped: bool,
    full: Seq<CommentView>,
    e: int,
)
    requires
        rows_sorted(Ranking { sort, scoped, by_path: false }, full),
        unique_ids(full),
        1 <= e <= full.len(),
    ensures
        spec_cursor_pos(sort, scoped, spec_row_key(sort, full[e - 1]), full) == e,
{
    let rk = Ranking { sort, scoped, by_path: false };
    let c = spec_row_key(sort, full[e - 1]);
    assert forall|j: int| 0 <= j < e implies !spec_key_lt(
        sort,
        scoped,
        c,
        spec_row_key(sort, #[trigger] full[j]),
    ) by {
        if j < e - 1 {
            assert(!spec_row_lt(rk, full[e - 1], full[j]));
        }
    }
    if e < full.len() {
        assert(spec_key_lt(sort, scoped, c, spec_row_key(sort, full[e]))) by {
            assert(!spec_row_lt(rk, full[e], full[e - 1]));
            assert(full[e - 1].comment.id.0 != full[e].comment.id.0);
        }
    }
    lemma_cursor_pos_at(sort, scoped, c, full, e);
}

/// Adjacent windows of the listing concatenate without duplicate or
/// gap: together with [`lemma_next_page_continues`], the pages
/// chained through `next_page` cover one contiguous stretch of the
/// full listing.
pub proof fn lemma_adjacent_windows_concat(full: Seq<CommentView>, s: int, e: int, f: int)
    requires
        0 <= s <= e <= f <= full.len(),
    ensures
        full.subrange(s, e) + full.subrange(e, f) == full.subrange(s, f),
{
    assert(full.subrange(s, e) + full.subrange(e, f) =~= full.subrange(s, f));
}

/// One boundary cursor serves both directions: the backward window
/// a cursor taken from the row at `e - 1` selects is exactly
/// `[max(0, e - l), e)`.  So a reader who paged forward past a
/// boundary and then pages backward from that same boundary returns
/// to the page they left, whenever that page was full or began the
/// listing; in particular, when the final page holds a full `l`
/// rows, paging backward from the cursor of its last row returns
/// that same final page.
pub proof fn lemma_back_page_from_boundary(
    sort: CommentSortType,
    scoped: bool,
    full: Seq<CommentView>,
    e: int,
    l: int,
)
    requires
        rows_sorted(Ranking { sort, scoped, by_path: false }, full),
        unique_ids(full),
        1 <= e <= full.len(),
        l >= 1,
    ensures
        ({
            let pos = spec_cursor_pos(sort, scoped, spec_row_key(sort, full[e - 1]), full);
            &&& pos == e
            &&& (if pos > l {
                pos - l
            } else {
                0int
            }) == (if e > l {
                e - l
            } else {
                0int
            })
        }),
{
    lemma_next_page_continues(sort, scoped, full, e);
}

} // verus!

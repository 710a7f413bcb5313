//! Redaction and projection: the display-time transform applied to
//! every row the engine returns.
//!
//! A removed or deleted item's body is blanked for every viewer who
//! is neither an admin nor a moderator of the owning community; the
//! underlying record is never mutated.  Projection also recomputes
//! the viewer's moderation capability for display.

use vstd::prelude::*;
use crate::pred::viewer_is_admin;
use crate::view::CommentView;
use crate::viewer::ViewerContext;

verus! {

/// The viewer may moderate this row's item: an admin, or a moderator
/// of the owning community.
pub open spec fn spec_can_mod(v: Option<ViewerContext>, r: CommentView) -> bool {
    viewer_is_admin(v) || (r.community_actions matches Some(a) && a.became_moderator_at is Some)
}

/// The row's body is blanked for this viewer: the item is removed or
/// deleted and the viewer is neither an admin nor a moderator of the
/// owning community.
pub open spec fn spec_redacts(v: Option<ViewerContext>, r: CommentView) -> bool {
    (r.comment.removed || r.comment.deleted) && !spec_can_mod(v, r)
}

/// `out` is `inp` as this viewer is shown it: every field unchanged,
/// except that a redacted body is empty and the moderation
/// capability is recomputed.
pub open spec fn is_projection_of(
    out: CommentView,
    inp: CommentView,
    v: Option<ViewerContext>,
) -> bool {
    &&& out.comment.id == inp.comment.id
    &&& out.comment.creator_id == inp.comment.creator_id
    &&& out.comment.post_id == inp.comment.post_id
    &&& out.comment.content@ == (if spec_redacts(v, inp) {
        Seq::<char>::empty()
    } else {
        inp.comment.content@
    })
    &&& out.comment.removed == inp.comment.removed
    &&& out.comment.deleted == inp.comment.deleted
    &&& out.comment.path == inp.comment.path
    &&& out.comment.distinguished == inp.comment.distinguished
    &&& out.comment.language_id == inp.comment.language_id
    &&& out.comment.score == inp.comment.score
    &&& out.comment.hot_rank == inp.comment.hot_rank
    &&& out.comment.controversy_rank == inp.comment.controversy_rank
    &&& out.comment.published_at == inp.comment.published_at
    &&& out.comment.federation_pending == inp.comment.federation_pending
    &&& out.creator == inp.creator
    &&& out.post == inp.post
    &&& out.community == inp.community
    &&& out.community_actions == inp.community_actions
    &&& out.comment_actions == inp.comment_actions
    &&& out.person_actions == inp.person_actions
    &&& out.instance_actions == inp.instance_actions
    &&& out.creator_community_actions == inp.creator_community_actions
    &&& out.creator_is_admin == inp.creator_is_admin
    &&& out.can_mod == spec_can_mod(v, inp)
}

/// Whether the viewer may moderate this row's item.
pub fn can_mod(v: &Option<ViewerContext>, r: &CommentView) -> (b: bool)
    ensures
        b == spec_can_mod(*v, *r),
{
    let admin = match v {
        Some(c) => c.is_admin,
        None => false,
    };
    let moderates = match &r.community_actions {
        Some(a) => a.became_moderator_at.is_some(),
        None => false,
    };
    admin || moderates
}

/// Project one row for display to this viewer: blank a removed or
/// deleted body for the unprivileged, and recompute `can_mod`.
pub fn project_row(v: &Option<ViewerContext>, r: CommentView) -> (out: CommentView)
    ensures
        is_projection_of(out, r, *v),
{
    let mods = can_mod(v, &r);
    let mut out = r;
    out.can_mod = mods;
    if (out.comment.removed || out.comment.deleted) && !mods {
        out.comment.content = String::new();
    }
    out
}

} // verus!

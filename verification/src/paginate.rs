//! Pagination: limit clamping, the legacy page mode, and cursor
//! positioning inside a ranked listing.
//!
//! A cursor marks the boundary after one row.  Paging forward takes
//! the first rows whose keys order strictly after the boundary;
//! paging backward takes the rows ending at the boundary, so one
//! boundary cursor resumes at the adjacent disjoint page in either
//! direction.

use vstd::prelude::*;
use crate::cursor::CursorKey;
use crate::model::CommentSortType;
use crate::order::{spec_key_lt, spec_row_key, key_before, row_key};
use crate::query::CommentQuery;
use crate::view::CommentView;

verus! {

/// Rows per page when the request names no limit.
pub const DEFAULT_LIMIT: i64 = 10;

/// Largest honored limit; larger requests are clamped, not refused.
pub const MAX_LIMIT: i64 = 50;

/// Largest legacy page number; beyond it the request is refused.
pub const MAX_PAGE: i64 = 10000;

/// Fixed cap on depth-limited tree fetches, which ignore pagination.
pub const DEPTH_FETCH_CAP: usize = 300;

/// The requested limit is acceptable: absent, or at least one.
pub open spec fn spec_limit_ok(q: CommentQuery) -> bool {
    match q.limit {
        Some(l) => l >= 1,
        None => true,
    }
}

/// The effective page size: the default when unset, clamped to the
/// maximum.
pub open spec fn spec_limit(q: CommentQuery) -> int {
    match q.limit {
        Some(l) => if l > MAX_LIMIT {
            MAX_LIMIT as int
        } else {
            l as int
        },
        None => DEFAULT_LIMIT as int,
    }
}

/// The legacy page number is acceptable: absent, or within bounds.
pub open spec fn spec_page_ok(q: CommentQuery) -> bool {
    match q.page {
        Some(p) => 1 <= p <= MAX_PAGE,
        None => true,
    }
}

/// The index of the first row whose key orders strictly after the
/// cursor key: the start of the remainder a cursor denotes.
pub open spec fn spec_cursor_pos(
    sort: CommentSortType,
    scoped: bool,
    c: CursorKey,
    s: Seq<CommentView>,
) -> int
    decreases s.len(),
{
    if s.len() == 0 {
        0
    } else if spec_key_lt(sort, scoped, c, spec_row_key(sort, s.first())) {
        0
    } else {
        1 + spec_cursor_pos(sort, scoped, c, s.drop_first())
    }
}

/// The cursor position is where the scan says it is.
pub proof fn lemma_cursor_pos_at(
    sort: CommentSortType,
    scoped: bool,
    c: CursorKey,
    s: Seq<CommentView>,
    p: int,
)
    requires
        0 <= p <= s.len(),
        forall|j: int|
            0 <= j < p ==> !spec_key_lt(sort, scoped, c, spec_row_key(sort, #[trigger] s[j])),
        p < s.len() ==> spec_key_lt(sort, scoped, c, spec_row_key(sort, s[p])),
    ensures
        spec_cursor_pos(sort, scoped, c, s) == p,
    decreases p,
{
    if s.len() == 0 {
    } else if p == 0 {
    } else {
        let tail = s.drop_first();
        assert forall|j: int|
            0 <= j < p - 1 implies !spec_key_lt(
            sort,
            scoped,
            c,
            spec_row_key(sort, #[trigger] tail[j]),
        ) by {
            assert(tail[j] == s[j + 1]);
        }
        assert(p - 1 < tail.len() ==> spec_key_lt(sort, scoped, c, spec_row_key(sort, tail[p - 1])));
        lemma_cursor_pos_at(sort, scoped, c, tail, p - 1);
    }
}

/// Find where a cursor resumes inside a ranked listing.
pub fn cursor_position(
    sort: CommentSortType,
    scoped: bool,
    c: &CursorKey,
    rows: &Vec<CommentView>,
) -> (p: usize)
    ensures
        p == spec_cursor_pos(sort, scoped, *c, rows@),
        p <= rows@.len(),
{
    let n = rows.len();
    let mut idx: usize = 0;
    let mut found = false;
    while !found && idx < n
        invariant
            0 <= idx <= n,
            n == rows@.len(),
            forall|j: int|
                0 <= j < idx ==> !spec_key_lt(
                    sort,
                    scoped,
                    *c,
                    spec_row_key(sort, #[trigger] rows@[j]),
                ),
            found ==> idx < n && spec_key_lt(sort, scoped, *c, spec_row_key(sort, rows@[idx as int])),
        decreases n - idx, (if found { 0int } else { 1int }),
    {
        let k = row_key(sort, &rows[idx]);
        if key_before(sort, scoped, c, &k) {
            found = true;
        } else {
            idx += 1;
        }
    }
    proof {
        lemma_cursor_pos_at(sort, scoped, *c, rows@, idx as int);
    }
    idx
}

} // verus!

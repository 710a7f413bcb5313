//! The engine's entry points: ranked, paginated listings and the
//! single-item read.
//!
//! Both take a snapshot of candidate rows — the one atomic answer of
//! the storage collaborator for this viewer — and decide which rows
//! are visible, in what order, which page is returned, and how each
//! row is redacted for display.

use vstd::prelude::*;
use crate::cursor::{decode_cursor, encode_cursor, spec_encode, CursorKey, PaginationCursor};
use crate::ids::CommentId;
use crate::model::{CommentSortType, Site};
use crate::order::{sort_rows, spec_ranking_of, spec_row_key, spec_sort_rows, row_key, Ranking};
use crate::paginate::{
    cursor_position, spec_cursor_pos, spec_limit, spec_limit_ok, spec_page_ok, DEFAULT_LIMIT,
    DEPTH_FETCH_CAP, MAX_LIMIT, MAX_PAGE,
};
use crate::pred::{listing_visible, single_visible, spec_listing_visible, spec_single_visible};
use crate::query::{CommentQuery, EngineError, GetCommentsResponse};
use crate::redact::{is_projection_of, project_row};
use crate::view::CommentView;
use crate::viewer::ViewerContext;

verus! {

/// The rows of a snapshot this query lets this viewer see, in
/// snapshot order.
pub open spec fn spec_visible_rows(
    q: CommentQuery,
    site: Site,
    now: i64,
    snapshot: Seq<CommentView>,
) -> Seq<CommentView> {
    snapshot.filter(|r: CommentView| spec_listing_visible(q, site, now, r))
}

/// The full ranked listing of a query over a snapshot: the visible
/// rows under the query's ranking, before pagination and redaction.
pub open spec fn spec_full_listing(
    q: CommentQuery,
    site: Site,
    now: i64,
    snapshot: Seq<CommentView>,
) -> Seq<CommentView> {
    spec_sort_rows(spec_ranking_of(q), spec_visible_rows(q, site, now, snapshot))
}

/// The request's pagination numbers are out of bounds: a limit below
/// one, or — when no cursor overrides it — a legacy page outside its
/// range.  Depth-limited fetches ignore pagination and never refuse.
pub open spec fn spec_pagination_invalid(q: CommentQuery) -> bool {
    q.max_depth is None && (!spec_limit_ok(q) || (q.page_cursor is None && !spec_page_ok(q)))
}

/// The cursor is the canonical token of a key taken under the
/// requested sort.
pub open spec fn spec_cursor_ok(q: CommentQuery, c: PaginationCursor) -> bool {
    exists|k: CursorKey|
        #![trigger spec_encode(k)]
        c.0@ == spec_encode(k) && k.sort == q.spec_sort()
}

/// The request carries a cursor the engine must refuse: one that
/// does not decode, or one taken under another sort.
pub open spec fn spec_cursor_invalid(q: CommentQuery) -> bool {
    &&& q.max_depth is None
    &&& spec_limit_ok(q)
    &&& (q.page_cursor matches Some(c) && !spec_cursor_ok(q, c))
}

/// `resp` is the `[start, end)` window of the full listing `full`,
/// each row projected for the query's viewer, with boundary cursors
/// exactly when the window is non-empty and more rows lie in that
/// direction: `next_page` names the window's last row, `prev_page`
/// the row just before the window, so each resumes at the adjacent
/// disjoint page (`paged` is false for depth-limited fetches, which
/// never carry cursors).
pub open spec fn spec_is_page(
    resp: GetCommentsResponse,
    q: CommentQuery,
    full: Seq<CommentView>,
    start: int,
    end: int,
    paged: bool,
) -> bool {
    &&& 0 <= start <= end <= full.len()
    &&& resp.comments@.len() == end - start
    &&& forall|i: int|
        0 <= i < end - start ==> is_projection_of(
            #[trigger] resp.comments@[i],
            full[start + i],
            q.viewer,
        )
    &&& (match resp.next_page {
        Some(c) => paged && start < end && end < full.len() && c.0@ == spec_encode(
            spec_row_key(q.spec_sort(), full[end - 1]),
        ),
        None => !(paged && start < end && end < full.len()),
    })
    &&& (match resp.prev_page {
        Some(c) => paged && start < end && start > 0 && c.0@ == spec_encode(
            spec_row_key(q.spec_sort(), full[start - 1]),
        ),
        None => !(paged && start < end && start > 0),
    })
}

/// What a successful listing returns, case by case: the fixed-cap
/// window of a depth-limited fetch; from a cursor, the rows just
/// past its boundary (forward) or the rows ending at its boundary
/// (backward); a legacy page's offset window; or, with no cursor,
/// the first (forward) or last (backward) rows of the whole
/// listing.
pub open spec fn spec_ok_response(
    q: CommentQuery,
    site: Site,
    now: i64,
    snapshot: Seq<CommentView>,
    resp: GetCommentsResponse,
) -> bool {
    let full = spec_full_listing(q, site, now, snapshot);
    let len = full.len() as int;
    let l = spec_limit(q);
    if q.max_depth is Some {
        spec_is_page(
            resp,
            q,
            full,
            0,
            if len > DEPTH_FETCH_CAP as int {
                DEPTH_FETCH_CAP as int
            } else {
                len
            },
            false,
        )
    } else {
        match q.page_cursor {
            Some(c) => exists|k: CursorKey|
                #![trigger spec_encode(k)]
                {
                    &&& c.0@ == spec_encode(k)
                    &&& k.sort == q.spec_sort()
                    &&& {
                        let pos = spec_cursor_pos(q.spec_sort(), q.spec_scoped(), k, full);
                        if q.page_back matches Some(true) {
                            spec_is_page(
                                resp,
                                q,
                                full,
                                if pos > l {
                                    pos - l
                                } else {
                                    0
                                },
                                pos,
                                true,
                            )
                        } else {
                            spec_is_page(
                                resp,
                                q,
                                full,
                                pos,
                                if len - pos > l {
                                    pos + l
                                } else {
                                    len
                                },
                                true,
                            )
                        }
                    }
                },
            None => match q.page {
                Some(p) => {
                    let off = (p - 1) * l;
                    let start = if off > len {
                        len
                    } else {
                        off
                    };
                    spec_is_page(
                        resp,
                        q,
                        full,
                        start,
                        if len - start > l {
                            start + l
                        } else {
                            len
                        },
                        true,
                    )
                },
                None => if q.page_back matches Some(true) {
                    spec_is_page(
                        resp,
                        q,
                        full,
                        if len > l {
                            len - l
                        } else {
                            0
                        },
                        len,
                        true,
                    )
                } else {
                    spec_is_page(
                        resp,
                        q,
                        full,
                        0,
                        if len > l {
                            l
                        } else {
                            len
                        },
                        true,
                    )
                },
            },
        }
    }
}

/// Keep exactly the rows the query lets this viewer see.
fn filter_rows(q: &CommentQuery, site: &Site, now: i64, snapshot: Vec<CommentView>) -> (kept: Vec<
    CommentView,
>)
    ensures
        kept@ == spec_visible_rows(*q, *site, now, snapshot@),
{
    let mut input = snapshot;
    let mut kept: Vec<CommentView> = Vec::new();
    let ghost orig = input@;
    let ghost mut processed: Seq<CommentView> = Seq::empty();
    while input.len() > 0
        invariant
            processed + input@ == orig,
            kept@ == spec_visible_rows(*q, *site, now, processed),
        decreases input@.len(),
    {
        let x = input.remove(0);
        let keep = listing_visible(q, site, now, &x);
        proof {
            let cl = |r: CommentView| spec_listing_visible(*q, *site, now, r);
            let p2 = processed.push(x);
            reveal(Seq::filter);
            assert(p2.drop_last() =~= processed);
            assert(p2.last() == x);
            assert(spec_visible_rows(*q, *site, now, p2) == if cl(x) {
                spec_visible_rows(*q, *site, now, processed).push(x)
            } else {
                spec_visible_rows(*q, *site, now, processed)
            });
            processed = p2;
            assert(processed + input@ =~= orig);
        }
        if keep {
            kept.push(x);
        }
    }
    proof {
        assert(processed =~= orig);
    }
    kept
}

impl CommentQuery {
    /// Run the listing against one snapshot of candidate rows.
    ///
    /// On success the response is one window of the full ranked
    /// listing — see [`spec_ok_response`] for which window each
    /// request shape selects — with every returned row projected for
    /// the viewer.  A limit below one, or an out-of-range legacy
    /// page with no cursor, is refused as `InvalidPagination`; a
    /// cursor that does not decode, or was taken under another sort,
    /// as `InvalidCursor`.  `now` is the caller's clock, the
    /// reference point of `time_range_seconds`.
    #[verifier::rlimit(100)]
    pub fn list(self, site: &Site, snapshot: Vec<CommentView>, now: i64) -> (r: Result<
        GetCommentsResponse,
        EngineError,
    >)
        ensures
            spec_pagination_invalid(self) ==> r == Err::<GetCommentsResponse, EngineError>(
                EngineError::InvalidPagination,
            ),
            spec_cursor_invalid(self) && !spec_pagination_invalid(self) ==> r == Err::<
                GetCommentsResponse,
                EngineError,
            >(EngineError::InvalidCursor),
            r matches Err(e) ==> (e == EngineError::InvalidPagination && spec_pagination_invalid(
                self,
            )) || (e == EngineError::InvalidCursor && spec_cursor_invalid(self)),
            r matches Ok(resp) ==> spec_ok_response(self, *site, now, snapshot@, resp),
    {
        let q = self;
        let depth_mode = q.max_depth.is_some();
        let sort = match q.sort {
            Some(s) => s,
            None => CommentSortType::Hot,
        };
        let scoped = q.post_id.is_some() || q.parent_path.is_some();
        let rk = Ranking { sort, scoped, by_path: depth_mode && scoped };
        proof {
            assert(rk == spec_ranking_of(q));
        }
        let mut lim: i64 = DEFAULT_LIMIT;
        if !depth_mode {
            if let Some(l0) = q.limit {
                if l0 < 1 {
                    return Err(EngineError::InvalidPagination);
                }
                lim = if l0 > MAX_LIMIT {
                    MAX_LIMIT
                } else {
                    l0
                };
            }
            if q.page_cursor.is_none() {
                if let Some(p) = q.page {
                    if p < 1 || p > MAX_PAGE {
                        return Err(EngineError::InvalidPagination);
                    }
                }
            }
        }
        let mut cursor_key: Option<CursorKey> = None;
        if !depth_mode {
            match &q.page_cursor {
                Some(c) => match decode_cursor(c) {
                    Some(k) => {
                        if k.sort == sort {
                            cursor_key = Some(k);
                            proof {
                                assert(spec_cursor_ok(q, *c));
                            }
                        } else {
                            proof {
                                assert forall|k2: CursorKey|
                                    #![trigger spec_encode(k2)]
                                    !(c.0@ == spec_encode(k2) && k2.sort == q.spec_sort()) by {
                                    if c.0@ == spec_encode(k2) {
                                        crate::cursor::lemma_encode_injective(k, k2);
                                    }
                                }
                            }
                            return Err(EngineError::InvalidCursor);
                        }
                    },
                    None => {
                        return Err(EngineError::InvalidCursor);
                    },
                },
                None => {},
            }
        }
        let ghost full = spec_full_listing(q, *site, now, snapshot@);
        let kept = filter_rows(&q, site, now, snapshot);
        let mut sorted = sort_rows(rk, kept);
        proof {
            assert(sorted@ == full);
        }
        let n = sorted.len();
        let lus: usize = lim as usize;
        let start: usize;
        let end: usize;
        if depth_mode {
            start = 0;
            end = if n > DEPTH_FETCH_CAP {
                DEPTH_FETCH_CAP
            } else {
                n
            };
        } else if let Some(k) = &cursor_key {
            let pos = cursor_position(sort, scoped, k, &sorted);
            if matches!(q.page_back, Some(true)) {
                start = if pos > lus {
                    pos - lus
                } else {
                    0
                };
                end = pos;
            } else {
                start = pos;
                end = if n - pos > lus {
                    pos + lus
                } else {
                    n
                };
            }
        } else if let Some(p) = q.page {
            assert(0 <= (p - 1) * (lim as int) <= 500000) by (nonlinear_arith)
                requires
                    1 <= p <= 10000,
                    1 <= lim <= 50,
            ;
            let off64: i64 = (p - 1) * lim;
            let off: usize = off64 as usize;
            start = if off > n {
                n
            } else {
                off
            };
            end = if n - start > lus {
                start + lus
            } else {
                n
            };
        } else if matches!(q.page_back, Some(true)) {
            start = if n > lus {
                n - lus
            } else {
                0
            };
            end = n;
        } else {
            start = 0;
            end = if n > lus {
                lus
            } else {
                n
            };
        }
        let mut next_page: Option<PaginationCursor> = None;
        let mut prev_page: Option<PaginationCursor> = None;
        if !depth_mode {
            if start < end && end < n {
                let k = row_key(sort, &sorted[end - 1]);
                next_page = Some(encode_cursor(k));
            }
            if start < end && start > 0 {
                let k = row_key(sort, &sorted[start - 1]);
                prev_page = Some(encode_cursor(k));
            }
        }
        let mut rest = sorted.split_off(start);
        rest.truncate(end - start);
        proof {
            assert(rest@ =~= full.subrange(start as int, end as int));
        }
        let mut comments: Vec<CommentView> = Vec::new();
        while rest.len() > 0
            invariant
                start as int + comments@.len() + rest@.len() == end,
                start <= end <= full.len(),
                rest@ =~= full.subrange(start as int + comments@.len(), end as int),
                forall|i: int|
                    0 <= i < comments@.len() ==> is_projection_of(
                        #[trigger] comments@[i],
                        full[start + i],
                        q.viewer,
                    ),
            decreases rest@.len(),
        {
            let ghost done = comments@.len() as int;
            let x = rest.remove(0);
            proof {
                assert(x == full[start + done]);
                assert(rest@ =~= full.subrange(start as int + done + 1, end as int));
            }
            let pr = project_row(&q.viewer, x);
            comments.push(pr);
        }
        let resp = GetCommentsResponse { comments, next_page, prev_page };
        proof {
            if q.max_depth is Some {
                assert(spec_is_page(resp, q, full, 0, end as int, false));
            }
        }
        Ok(resp)
    }
}

/// The first row of the snapshot that carries the requested id and
/// is visible to this viewer in a single-item read.
pub open spec fn spec_find_visible(
    s: Seq<CommentView>,
    id: CommentId,
    v: Option<ViewerContext>,
) -> Option<CommentView>
    decreases s.len(),
{
    if s.len() == 0 {
        None
    } else if s.first().comment.id == id && spec_single_visible(v, s.first()) {
        Some(s.first())
    } else {
        spec_find_visible(s.drop_first(), id, v)
    }
}

impl CommentView {
    /// Read one item by id from a snapshot of candidate rows.
    ///
    /// Returns the item projected for the viewer, or `NotFound` both
    /// when no row carries the id and when the row exists but is not
    /// visible to this viewer — indistinguishable by design.
    pub fn read(
        snapshot: Vec<CommentView>,
        comment_id: CommentId,
        my_local_user: &Option<ViewerContext>,
    ) -> (r: Result<CommentView, EngineError>)
        ensures
            match r {
                Ok(out) => spec_find_visible(snapshot@, comment_id, *my_local_user)
                    matches Some(row) && is_projection_of(out, row, *my_local_user),
                Err(e) => e == EngineError::NotFound && spec_find_visible(
                    snapshot@,
                    comment_id,
                    *my_local_user,
                ) is None,
            },
    {
        let mut input = snapshot;
        let ghost orig = input@;
        while input.len() > 0
            invariant
                orig == snapshot@,
                spec_find_visible(orig, comment_id, *my_local_user) == spec_find_visible(
                    input@,
                    comment_id,
                    *my_local_user,
                ),
            decreases input@.len(),
        {
            let ghost before = input@;
            let x = input.remove(0);
            proof {
                assert(before.drop_first() =~= input@);
            }
            if x.comment.id.0 == comment_id.0 && single_visible(my_local_user, &x) {
                proof {
                    assert(x.comment.id == comment_id);
                    assert(before.first() == x);
                    assert(spec_find_visible(before, comment_id, *my_local_user) == Some(x));
                    assert(spec_find_visible(orig, comment_id, *my_local_user) == Some(x));
                    assert(spec_find_visible(snapshot@, comment_id, *my_local_user) == Some(x));
                }
                return Ok(project_row(my_local_user, x));
            }
        }
        Err(EngineError::NotFound)
    }
}

} // verus!

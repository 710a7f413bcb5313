//! Ranking strategies and the verified ordering of candidate rows.
//!
//! Every listing is ordered by one strict total order: optionally the
//! ancestor-prefix of the thread path (depth-limited tree fetches
//! scoped to a post or subtree), then the distinguished flag (scoped
//! queries only), then the keys of the chosen sort, and finally the
//! item id as an unconditional tie-break, which makes the order
//! strict on rows with distinct ids.

use vstd::prelude::*;
use crate::cursor::CursorKey;
use crate::ids::CommentId;
use crate::model::CommentSortType;
use crate::query::CommentQuery;
use crate::view::CommentView;

verus! {

/// The ordering a query ranks its candidates by.
#[derive(Clone, Copy, Debug, PartialEq, Eq, Structural)]
pub struct Ranking {
    pub sort: CommentSortType,
    /// Scoped to a single post or subtree: distinguished items rank
    /// first.
    pub scoped: bool,
    /// Depth-limited and scoped: ancestors rank before descendants.
    pub by_path: bool,
}

/// The ranking a query implies.
pub open spec fn spec_ranking_of(q: CommentQuery) -> Ranking {
    Ranking {
        sort: q.spec_sort(),
        scoped: q.spec_scoped(),
        by_path: q.max_depth is Some && q.spec_scoped(),
    }
}

/// The ranking key of a row under a sort: the values a pagination
/// cursor records.
pub open spec fn spec_row_key(sort: CommentSortType, r: CommentView) -> CursorKey {
    CursorKey {
        sort,
        distinguished: r.comment.distinguished,
        k1: match sort {
            CommentSortType::Hot => r.comment.hot_rank,
            CommentSortType::Controversial => r.comment.controversy_rank,
            CommentSortType::New => r.comment.published_at,
            CommentSortType::Old => r.comment.published_at,
            CommentSortType::Top => r.comment.score,
        },
        k2: match sort {
            CommentSortType::Hot => r.comment.score,
            _ => 0,
        },
        id: r.comment.id.0,
    }
}

/// Strict order on ranking keys: distinguished first when scoped,
/// then the sort's own keys with their directions, then id
/// ascending.
pub open spec fn spec_key_lt(sort: CommentSortType, scoped: bool, a: CursorKey, b: CursorKey) -> bool {
    if scoped && a.distinguished != b.distinguished {
        a.distinguished
    } else {
        match sort {
            CommentSortType::Hot => if a.k1 != b.k1 {
                a.k1 > b.k1
            } else if a.k2 != b.k2 {
                a.k2 > b.k2
            } else {
                a.id < b.id
            },
            CommentSortType::Old => if a.k1 != b.k1 {
                a.k1 < b.k1
            } else {
                a.id < b.id
            },
            _ => if a.k1 != b.k1 {
                a.k1 > b.k1
            } else {
                a.id < b.id
            },
        }
    }
}

/// The ancestor-prefix of a row's thread path: the path without the
/// row's own id.
pub open spec fn spec_tree_prefix(r: CommentView) -> Seq<CommentId> {
    if r.comment.path.segments@.len() == 0 {
        Seq::empty()
    } else {
        r.comment.path.segments@.drop_last()
    }
}

/// Lexicographic order on id sequences; a proper prefix orders
/// before its extensions, so ancestors come first.
pub open spec fn spec_path_lt(a: Seq<CommentId>, b: Seq<CommentId>) -> bool
    decreases a.len(),
{
    if b.len() == 0 {
        false
    } else if a.len() == 0 {
        true
    } else if a[0].0 < b[0].0 {
        true
    } else if a[0].0 > b[0].0 {
        false
    } else {
        spec_path_lt(a.drop_first(), b.drop_first())
    }
}

/// The strict row order of a ranking.
pub open spec fn spec_row_lt(rk: Ranking, a: CommentView, b: CommentView) -> bool {
    if rk.by_path {
        spec_path_lt(spec_tree_prefix(a), spec_tree_prefix(b)) || (!spec_path_lt(
            spec_tree_prefix(b),
            spec_tree_prefix(a),
        ) && spec_key_lt(rk.sort, rk.scoped, spec_row_key(rk.sort, a), spec_row_key(rk.sort, b)))
    } else {
        spec_key_lt(rk.sort, rk.scoped, spec_row_key(rk.sort, a), spec_row_key(rk.sort, b))
    }
}

/// The sequence is sorted by the ranking: no later row orders
/// strictly before an earlier one.
pub open spec fn rows_sorted(rk: Ranking, s: Seq<CommentView>) -> bool {
    forall|i: int, j: int| 0 <= i < j < s.len() ==> !spec_row_lt(rk, s[j], s[i])
}

/// All rows carry distinct item ids.
pub open spec fn unique_ids(s: Seq<CommentView>) -> bool {
    forall|i: int, j: int|
        #![trigger s[i].comment.id.0, s[j].comment.id.0]
        0 <= i < j < s.len() ==> s[i].comment.id.0 != s[j].comment.id.0
}

/// Sequences neither of which lexicographically precedes the other
/// are equal.
pub proof fn lemma_path_tie_is_eq(a: Seq<CommentId>, b: Seq<CommentId>)
    requires
        !spec_path_lt(a, b),
        !spec_path_lt(b, a),
    ensures
        a == b,
    decreases a.len(),
{
    if b.len() == 0 {
        assert(a =~= b);
    } else if a.len() == 0 {
        assert(spec_path_lt(a, b));
    } else {
        assert(a[0].0 == b[0].0);
        lemma_path_tie_is_eq(a.drop_first(), b.drop_first());
        assert(a.drop_first() == b.drop_first());
        assert(a.drop_first().len() == b.drop_first().len());
        assert(a.len() == b.len());
        assert forall|i: int| 0 <= i < a.len() implies a[i] == b[i] by {
            if i == 0 {
                assert(a[0].0 == b[0].0);
            } else {
                assert(a.drop_first()[i - 1] == b.drop_first()[i - 1]);
                assert(a.drop_first()[i - 1] == a[i]);
                assert(b.drop_first()[i - 1] == b[i]);
            }
        }
        assert(a =~= b);
    }
}

/// Lexicographic order is asymmetric.
pub proof fn lemma_path_lt_asym(a: Seq<CommentId>, b: Seq<CommentId>)
    requires
        spec_path_lt(a, b),
    ensures
        !spec_path_lt(b, a),
    decreases a.len(),
{
    if b.len() == 0 {
    } else if a.len() == 0 {
    } else if a[0].0 == b[0].0 {
        lemma_path_lt_asym(a.drop_first(), b.drop_first());
    }
}

/// Lexicographic order is transitive.
pub proof fn lemma_path_lt_trans(a: Seq<CommentId>, b: Seq<CommentId>, c: Seq<CommentId>)
    requires
        spec_path_lt(a, b),
        spec_path_lt(b, c),
    ensures
        spec_path_lt(a, c),
    decreases a.len(),
{
    if a.len() == 0 {
    } else if b.len() == 0 {
    } else if c.len() == 0 {
    } else if a[0].0 == b[0].0 && b[0].0 == c[0].0 {
        lemma_path_lt_trans(a.drop_first(), b.drop_first(), c.drop_first());
    }
}

/// The row order is asymmetric.
pub proof fn lemma_row_lt_asym(rk: Ranking, a: CommentView, b: CommentView)
    requires
        spec_row_lt(rk, a, b),
    ensures
        !spec_row_lt(rk, b, a),
{
    if rk.by_path {
        let pa = spec_tree_prefix(a);
        let pb = spec_tree_prefix(b);
        if spec_path_lt(pa, pb) {
            lemma_path_lt_asym(pa, pb);
        }
    }
}

/// The row order is transitive.
pub proof fn lemma_row_lt_trans(rk: Ranking, a: CommentView, b: CommentView, c: CommentView)
    requires
        spec_row_lt(rk, a, b),
        spec_row_lt(rk, b, c),
    ensures
        spec_row_lt(rk, a, c),
{
    if rk.by_path {
        let pa = spec_tree_prefix(a);
        let pb = spec_tree_prefix(b);
        let pc = spec_tree_prefix(c);
        if spec_path_lt(pa, pb) && spec_path_lt(pb, pc) {
            lemma_path_lt_trans(pa, pb, pc);
        } else if spec_path_lt(pa, pb) {
            lemma_path_tie_is_eq(pb, pc);
        } else if spec_path_lt(pb, pc) {
            lemma_path_tie_is_eq(pa, pb);
        } else {
            lemma_path_tie_is_eq(pa, pb);
            lemma_path_tie_is_eq(pb, pc);
        }
    }
}

/// Insert a row into a ranked sequence, before the first row it
/// orders strictly before.
pub open spec fn spec_insert_row(rk: Ranking, s: Seq<CommentView>, x: CommentView) -> Seq<
    CommentView,
>
    decreases s.len(),
{
    if s.len() == 0 {
        seq![x]
    } else if spec_row_lt(rk, x, s.first()) {
        seq![x] + s
    } else {
        seq![s.first()] + spec_insert_row(rk, s.drop_first(), x)
    }
}

/// Rank a sequence of candidate rows: insertion sort, processing the
/// input left to right.
pub open spec fn spec_sort_rows(rk: Ranking, s: Seq<CommentView>) -> Seq<CommentView>
    decreases s.len(),
{
    if s.len() == 0 {
        Seq::empty()
    } else {
        spec_insert_row(rk, spec_sort_rows(rk, s.drop_last()), s.last())
    }
}

/// Inserting preserves sortedness, grows the length by one, and adds
/// exactly the new row to the elements.
pub proof fn lemma_insert_row_props(rk: Ranking, s: Seq<CommentView>, x: CommentView)
    requires
        rows_sorted(rk, s),
    ensures
        spec_insert_row(rk, s, x).len() == s.len() + 1,
        rows_sorted(rk, spec_insert_row(rk, s, x)),
        forall|y: CommentView|
            #[trigger] spec_insert_row(rk, s, x).contains(y) <==> s.contains(y) || y == x,
    decreases s.len(),
{
    let out = spec_insert_row(rk, s, x);
    if s.len() == 0 {
        assert forall|y: CommentView| #[trigger] out.contains(y) implies s.contains(y) || y == x by {
            let i = choose|i: int| 0 <= i < out.len() && out[i] == y;
            assert(out[0] == x);
        }
        assert(out.contains(x)) by {
            assert(out[0] == x);
        }
    } else if spec_row_lt(rk, x, s.first()) {
        assert(out =~= seq![x] + s);
        assert forall|i: int, j: int| 0 <= i < j < out.len() implies !spec_row_lt(
            rk,
            out[j],
            out[i],
        ) by {
            if i == 0 {
                if spec_row_lt(rk, out[j], x) {
                    if j == 1 {
                        lemma_row_lt_asym(rk, x, s.first());
                    } else {
                        lemma_row_lt_trans(rk, s[j - 1], x, s[0]);
                    }
                }
            }
        }
        assert forall|y: CommentView| #[trigger] out.contains(y) implies s.contains(y) || y == x by {
            let i = choose|i: int| 0 <= i < out.len() && out[i] == y;
            if i > 0 {
                assert(s[i - 1] == y);
            }
        }
        assert forall|y: CommentView| s.contains(y) || y == x implies #[trigger] out.contains(
            y,
        ) by {
            if s.contains(y) {
                let i = choose|i: int| 0 <= i < s.len() && s[i] == y;
                assert(out[i + 1] == y);
            } else {
                assert(out[0] == y);
            }
        }
    } else {
        let tail = s.drop_first();
        assert(rows_sorted(rk, tail)) by {
            assert forall|i: int, j: int| 0 <= i < j < tail.len() implies !spec_row_lt(
                rk,
                tail[j],
                tail[i],
            ) by {
                assert(tail[j] == s[j + 1] && tail[i] == s[i + 1]);
            }
        }
        lemma_insert_row_props(rk, tail, x);
        let ins = spec_insert_row(rk, tail, x);
        assert(out =~= seq![s.first()] + ins);
        assert forall|i: int, j: int| 0 <= i < j < out.len() implies !spec_row_lt(
            rk,
            out[j],
            out[i],
        ) by {
            if i == 0 {
                let y = out[j];
                assert(ins[j - 1] == y);
                assert(ins.contains(y));
                if spec_row_lt(rk, y, s.first()) {
                    if tail.contains(y) {
                        let k = choose|k: int| 0 <= k < tail.len() && tail[k] == y;
                        assert(s[k + 1] == y);
                        assert(!spec_row_lt(rk, s[k + 1], s[0]));
                    } else {
                        assert(y == x);
                        assert(!spec_row_lt(rk, x, s.first()));
                    }
                }
            } else {
                assert(out[i] == ins[i - 1] && out[j] == ins[j - 1]);
            }
        }
        assert forall|y: CommentView| #[trigger] out.contains(y) implies s.contains(y) || y == x by {
            let i = choose|i: int| 0 <= i < out.len() && out[i] == y;
            if i == 0 {
                assert(s[0] == y);
            } else {
                assert(ins[i - 1] == y);
                assert(ins.contains(y));
                if tail.contains(y) {
                    let k = choose|k: int| 0 <= k < tail.len() && tail[k] == y;
                    assert(s[k + 1] == y);
                }
            }
        }
        assert forall|y: CommentView| s.contains(y) || y == x implies #[trigger] out.contains(
            y,
        ) by {
            if s.contains(y) {
                let i = choose|i: int| 0 <= i < s.len() && s[i] == y;
                if i == 0 {
                    assert(out[0] == y);
                } else {
                    assert(tail[i - 1] == y);
                    assert(tail.contains(y));
                    assert(ins.contains(y));
                    let k = choose|k: int| 0 <= k < ins.len() && ins[k] == y;
                    assert(out[k + 1] == y);
                }
            } else {
                assert(ins.contains(y));
                let k = choose|k: int| 0 <= k < ins.len() && ins[k] == y;
                assert(out[k + 1] == y);
            }
        }
    }
}

/// Ranking a sequence keeps its length and exactly its elements, and
/// sorts it.
pub proof fn lemma_sort_rows_props(rk: Ranking, s: Seq<CommentView>)
    ensures
        spec_sort_rows(rk, s).len() == s.len(),
        rows_sorted(rk, spec_sort_rows(rk, s)),
        forall|y: CommentView| #[trigger] spec_sort_rows(rk, s).contains(y) <==> s.contains(y),
    decreases s.len(),
{
    if s.len() == 0 {
    } else {
        let p = s.drop_last();
        lemma_sort_rows_props(rk, p);
        lemma_insert_row_props(rk, spec_sort_rows(rk, p), s.last());
        assert forall|y: CommentView| #[trigger] spec_sort_rows(rk, s).contains(y) implies
            s.contains(y) by {
            if spec_sort_rows(rk, p).contains(y) {
                assert(p.contains(y));
                let i = choose|i: int| 0 <= i < p.len() && p[i] == y;
                assert(s[i] == y);
            } else {
                assert(s[s.len() - 1] == y);
            }
        }
        assert forall|y: CommentView| s.contains(y) implies #[trigger] spec_sort_rows(
            rk,
            s,
        ).contains(y) by {
            let i = choose|i: int| 0 <= i < s.len() && s[i] == y;
            if i < s.len() - 1 {
                assert(p[i] == y);
                assert(p.contains(y));
            } else {
                assert(y == s.last());
            }
        }
    }
}

/// Inserting a row whose id is fresh preserves id uniqueness.
proof fn lemma_insert_row_unique(rk: Ranking, s: Seq<CommentView>, x: CommentView)
    requires
        rows_sorted(rk, s),
        unique_ids(s),
        forall|k: int| 0 <= k < s.len() ==> #[trigger] s[k].comment.id.0 != x.comment.id.0,
    ensures
        unique_ids(spec_insert_row(rk, s, x)),
    decreases s.len(),
{
    let out = spec_insert_row(rk, s, x);
    if s.len() == 0 {
    } else if spec_row_lt(rk, x, s.first()) {
        assert(out =~= seq![x] + s);
        assert forall|i: int, j: int|
            #![trigger out[i].comment.id.0, out[j].comment.id.0]
            0 <= i < j < out.len() implies out[i].comment.id.0 != out[j].comment.id.0 by {
            if i == 0 {
                assert(out[j] == s[j - 1]);
            } else {
                assert(out[i] == s[i - 1] && out[j] == s[j - 1]);
            }
        }
    } else {
        let tail = s.drop_first();
        assert(rows_sorted(rk, tail) && unique_ids(tail)) by {
            assert forall|i: int, j: int| 0 <= i < j < tail.len() implies !spec_row_lt(
                rk,
                tail[j],
                tail[i],
            ) && tail[i].comment.id.0 != tail[j].comment.id.0 by {
                assert(tail[j] == s[j + 1] && tail[i] == s[i + 1]);
            }
        }
        assert forall|k: int| 0 <= k < tail.len() implies #[trigger] tail[k].comment.id.0
            != x.comment.id.0 by {
            assert(tail[k] == s[k + 1]);
        }
        lemma_insert_row_unique(rk, tail, x);
        lemma_insert_row_props(rk, tail, x);
        let ins = spec_insert_row(rk, tail, x);
        assert(out =~= seq![s.first()] + ins);
        assert forall|i: int, j: int|
            #![trigger out[i].comment.id.0, out[j].comment.id.0]
            0 <= i < j < out.len() implies out[i].comment.id.0 != out[j].comment.id.0 by {
            if i == 0 {
                let y = out[j];
                assert(ins[j - 1] == y);
                assert(ins.contains(y));
                if tail.contains(y) {
                    let k = choose|k: int| 0 <= k < tail.len() && tail[k] == y;
                    assert(s[k + 1] == y);
                } else {
                    assert(y == x);
                }
            } else {
                assert(out[i] == ins[i - 1] && out[j] == ins[j - 1]);
            }
        }
    }
}

/// Ranking preserves id uniqueness.
pub proof fn lemma_sort_rows_unique(rk: Ranking, s: Seq<CommentView>)
    requires
        unique_ids(s),
    ensures
        unique_ids(spec_sort_rows(rk, s)),
    decreases s.len(),
{
    if s.len() > 0 {
        let p = s.drop_last();
        assert(unique_ids(p)) by {
            assert forall|i: int, j: int|
                #![trigger p[i].comment.id.0, p[j].comment.id.0]
                0 <= i < j < p.len() implies p[i].comment.id.0 != p[j].comment.id.0 by {
                assert(p[i] == s[i] && p[j] == s[j]);
            }
        }
        lemma_sort_rows_unique(rk, p);
        lemma_sort_rows_props(rk, p);
        let sorted_p = spec_sort_rows(rk, p);
        assert forall|k: int| 0 <= k < sorted_p.len() implies #[trigger] sorted_p[k].comment.id.0
            != s.last().comment.id.0 by {
            assert(sorted_p.contains(sorted_p[k]));
            assert(p.contains(sorted_p[k]));
            let m = choose|m: int| 0 <= m < p.len() && p[m] == sorted_p[k];
            assert(s[m] == sorted_p[k]);
        }
        lemma_insert_row_unique(rk, sorted_p, s.last());
    }
}

/// Compute the ranking key of a row.
pub fn row_key(sort: CommentSortType, r: &CommentView) -> (k: CursorKey)
    ensures
        k == spec_row_key(sort, *r),
{
    let (k1, k2): (i64, i64) = match sort {
        CommentSortType::Hot => (r.comment.hot_rank, r.comment.score),
        CommentSortType::Controversial => (r.comment.controversy_rank, 0),
        CommentSortType::New => (r.comment.published_at, 0),
        CommentSortType::Old => (r.comment.published_at, 0),
        CommentSortType::Top => (r.comment.score, 0),
    };
    CursorKey { sort, distinguished: r.comment.distinguished, k1, k2, id: r.comment.id.0 }
}

/// Compare two ranking keys under a sort.
pub fn key_before(sort: CommentSortType, scoped: bool, a: &CursorKey, b: &CursorKey) -> (r: bool)
    ensures
        r == spec_key_lt(sort, scoped, *a, *b),
{
    if scoped && a.distinguished != b.distinguished {
        a.distinguished
    } else {
        match sort {
            CommentSortType::Hot => if a.k1 != b.k1 {
                a.k1 > b.k1
            } else if a.k2 != b.k2 {
                a.k2 > b.k2
            } else {
                a.id < b.id
            },
            CommentSortType::Old => if a.k1 != b.k1 {
                a.k1 < b.k1
            } else {
                a.id < b.id
            },
            _ => if a.k1 != b.k1 {
                a.k1 > b.k1
            } else {
                a.id < b.id
            },
        }
    }
}

/// Equal prefixes leave the lexicographic comparison to the
/// remainders.
proof fn lemma_path_lt_skip(a: Seq<CommentId>, b: Seq<CommentId>, i: int)
    requires
        0 <= i <= a.len(),
        i <= b.len(),
        forall|j: int| 0 <= j < i ==> a[j].0 == #[trigger] b[j].0,
    ensures
        spec_path_lt(a, b) == spec_path_lt(a.skip(i), b.skip(i)),
    decreases i,
{
    if i > 0 {
        if b.len() == 0 {
        } else {
            assert(a[0].0 == b[0].0);
            let a1 = a.drop_first();
            let b1 = b.drop_first();
            assert forall|j: int| 0 <= j < i - 1 implies a1[j].0 == #[trigger] b1[j].0 by {
                assert(a1[j] == a[j + 1] && b1[j] == b[j + 1]);
            }
            lemma_path_lt_skip(a1, b1, i - 1);
            assert(a1.skip(i - 1) =~= a.skip(i));
            assert(b1.skip(i - 1) =~= b.skip(i));
        }
    } else {
        assert(a.skip(0) =~= a);
        assert(b.skip(0) =~= b);
    }
}

/// Compare two rows by the ancestor-prefix of their paths.
fn tree_prefix_before(a: &CommentView, b: &CommentView) -> (r: bool)
    ensures
        r == spec_path_lt(spec_tree_prefix(*a), spec_tree_prefix(*b)),
{
    let la: usize = if a.comment.path.segments.len() == 0 {
        0
    } else {
        a.comment.path.segments.len() - 1
    };
    let lb: usize = if b.comment.path.segments.len() == 0 {
        0
    } else {
        b.comment.path.segments.len() - 1
    };
    let ghost pa = spec_tree_prefix(*a);
    let ghost pb = spec_tree_prefix(*b);
    assert(pa.len() == la && pb.len() == lb);
    assert(forall|j: int| 0 <= j < la ==> pa[j] == a.comment.path.segments@[j]);
    assert(forall|j: int| 0 <= j < lb ==> pb[j] == b.comment.path.segments@[j]);
    let mut i: usize = 0;
    while i < la && i < lb
        invariant
            0 <= i <= la,
            0 <= i <= lb,
            la <= a.comment.path.segments@.len(),
            lb <= b.comment.path.segments@.len(),
            pa == spec_tree_prefix(*a),
            pb == spec_tree_prefix(*b),
            pa.len() == la,
            pb.len() == lb,
            forall|j: int| 0 <= j < la ==> pa[j] == a.comment.path.segments@[j],
            forall|j: int| 0 <= j < lb ==> pb[j] == b.comment.path.segments@[j],
            forall|j: int| 0 <= j < i ==> pa[j].0 == #[trigger] pb[j].0,
        decreases la - i,
    {
        let x = a.comment.path.segments[i].0;
        let y = b.comment.path.segments[i].0;
        if x < y {
            proof {
                lemma_path_lt_skip(pa, pb, i as int);
            }
            return true;
        }
        if x > y {
            proof {
                lemma_path_lt_skip(pa, pb, i as int);
            }
            return false;
        }
        i += 1;
    }
    proof {
        if la <= lb {
            lemma_path_lt_skip(pa, pb, la as int);
        } else {
            lemma_path_lt_skip(pb, pa, lb as int);
            lemma_path_lt_asym(pb, pa);
        }
    }
    la < lb
}

/// Compare two rows under a ranking.
pub fn row_before(rk: Ranking, a: &CommentView, b: &CommentView) -> (r: bool)
    ensures
        r == spec_row_lt(rk, *a, *b),
{
    if rk.by_path {
        if tree_prefix_before(a, b) {
            true
        } else if tree_prefix_before(b, a) {
            false
        } else {
            let ka = row_key(rk.sort, a);
            let kb = row_key(rk.sort, b);
            key_before(rk.sort, rk.scoped, &ka, &kb)
        }
    } else {
        let ka = row_key(rk.sort, a);
        let kb = row_key(rk.sort, b);
        key_before(rk.sort, rk.scoped, &ka, &kb)
    }
}

/// A row inserted at the first position it orders before lands where
/// the specification puts it.
proof fn lemma_insert_at(rk: Ranking, s: Seq<CommentView>, x: CommentView, i: int)
    requires
        0 <= i <= s.len(),
        forall|j: int| 0 <= j < i ==> !spec_row_lt(rk, x, #[trigger] s[j]),
        i < s.len() ==> spec_row_lt(rk, x, s[i]),
    ensures
        spec_insert_row(rk, s, x) == s.insert(i, x),
    decreases i,
{
    if s.len() == 0 {
        assert(spec_insert_row(rk, s, x) =~= s.insert(0, x));
    } else if i == 0 {
        assert(spec_row_lt(rk, x, s.first()));
        assert(seq![x] + s =~= s.insert(0, x));
    } else {
        assert(!spec_row_lt(rk, x, s[0]));
        let tail = s.drop_first();
        assert forall|j: int| 0 <= j < i - 1 implies !spec_row_lt(rk, x, #[trigger] tail[j]) by {
            assert(tail[j] == s[j + 1]);
        }
        assert(i - 1 < tail.len() ==> spec_row_lt(rk, x, tail[i - 1]));
        lemma_insert_at(rk, tail, x, i - 1);
        assert(seq![s.first()] + tail.insert(i - 1, x) =~= s.insert(i, x));
    }
}

/// Rank a snapshot's candidate rows: insertion sort under the
/// ranking's strict order.
pub fn sort_rows(rk: Ranking, rows: Vec<CommentView>) -> (out: Vec<CommentView>)
    ensures
        out@ == spec_sort_rows(rk, rows@),
{
    let mut input = rows;
    let mut out: Vec<CommentView> = Vec::new();
    let ghost orig = input@;
    let ghost mut processed: Seq<CommentView> = Seq::empty();
    while input.len() > 0
        invariant
            processed + input@ == orig,
            out@ == spec_sort_rows(rk, processed),
        decreases input@.len(),
    {
        let x = input.remove(0);
        let ghost prev = processed;
        proof {
            processed = processed.push(x);
            assert(processed + input@ =~= orig);
            assert(processed.drop_last() =~= prev);
        }
        let n = out.len();
        let mut idx: usize = 0;
        let mut found = false;
        while !found && idx < n
            invariant
                0 <= idx <= n,
                n == out@.len(),
                forall|j: int| 0 <= j < idx ==> !spec_row_lt(rk, x, #[trigger] out@[j]),
                found ==> idx < n && spec_row_lt(rk, x, out@[idx as int]),
            decreases n - idx, (if found { 0int } else { 1int }),
        {
            if row_before(rk, &x, &out[idx]) {
                found = true;
            } else {
                idx += 1;
            }
        }
        proof {
            lemma_insert_at(rk, out@, x, idx as int);
        }
        out.insert(idx, x);
    }
    proof {
        assert(processed =~= orig);
    }
    out
}

} // verus!

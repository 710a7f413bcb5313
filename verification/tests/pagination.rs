//! Pagination and cursor-codec behavior over a flat listing of five
//! comments.

use thread_engine::cursor::{decode_cursor, encode_cursor, CursorKey, PaginationCursor};
use thread_engine::order::row_key;
use thread_engine::ids::{CommentId, CommunityId, InstanceId, LanguageId, PersonId, PostId};
use thread_engine::model::{
    Comment, CommentActions, CommentSortType, Community, CommunityVisibility, Person, Post, Site,
    ThreadPath,
};
use thread_engine::viewer::ViewerContext;
use thread_engine::query::{CommentQuery, EngineError, GetCommentsResponse};
use thread_engine::view::CommentView;

fn row(id: i32, published: i64) -> CommentView {
    CommentView {
        comment: Comment {
            id: CommentId(id),
            creator_id: PersonId(1),
            post_id: PostId(1),
            content: format!("Comment {}", id),
            removed: false,
            deleted: false,
            path: ThreadPath { segments: vec![CommentId(id)] },
            distinguished: false,
            language_id: LanguageId(1),
            score: 0,
            hot_rank: 0,
            controversy_rank: 0,
            published_at: published,
            federation_pending: false,
        },
        creator: Person {
            id: PersonId(1),
            instance_id: InstanceId(1),
            name: "timmy".to_string(),
            bot_account: false,
        },
        post: Post { id: PostId(1), community_id: CommunityId(1), nsfw: false },
        community: Community {
            id: CommunityId(1),
            instance_id: InstanceId(1),
            local: true,
            nsfw: false,
            visibility: CommunityVisibility::Public,
        },
        community_actions: None,
        comment_actions: None,
        person_actions: None,
        instance_actions: None,
        creator_community_actions: None,
        creator_is_admin: false,
        can_mod: false,
    }
}

fn flat_rows(n: i32) -> Vec<CommentView> {
    (0..n).map(|i| row(i, 100 + i as i64)).collect()
}

fn site() -> Site {
    Site { content_warning: None }
}

fn ids_of(resp: &GetCommentsResponse) -> Vec<i32> {
    resp.comments.iter().map(|c| c.comment.id.0).collect()
}

fn new_sorted(limit: i64, cursor: Option<PaginationCursor>, back: bool) -> CommentQuery {
    CommentQuery {
        sort: Some(CommentSortType::New),
        limit: Some(limit),
        page_cursor: cursor,
        page_back: if back { Some(true) } else { None },
        ..Default::default()
    }
}

#[test]
fn cursor_pages_tile_the_listing() {
    // sort New over five rows: full order is 4, 3, 2, 1, 0
    let page1 = new_sorted(2, None, false).list(&site(), flat_rows(5), 1000).unwrap();
    assert_eq!(vec![4, 3], ids_of(&page1));
    assert!(page1.prev_page.is_none());
    let n1 = page1.next_page.clone().expect("a second page exists");

    let page2 = new_sorted(2, Some(n1), false).list(&site(), flat_rows(5), 1000).unwrap();
    assert_eq!(vec![2, 1], ids_of(&page2));
    assert!(page2.prev_page.is_some());
    let n2 = page2.next_page.clone().expect("a third page exists");

    let page3 = new_sorted(2, Some(n2), false).list(&site(), flat_rows(5), 1000).unwrap();
    assert_eq!(vec![0], ids_of(&page3));
    // no further page forward
    assert!(page3.next_page.is_none());

    // concatenation covers the listing with no duplicate and no gap
    let mut all = ids_of(&page1);
    all.extend(ids_of(&page2));
    all.extend(ids_of(&page3));
    assert_eq!(vec![4, 3, 2, 1, 0], all);
}

#[test]
fn page_back_from_last_boundary_returns_final_page() {
    // six rows, pages of two: the final page [1, 0] is full, and
    // paging backward from the cursor of its last row returns that
    // same final page
    let last_row_cursor = encode_cursor(row_key(CommentSortType::New, &row(0, 100)));
    let backward = new_sorted(2, Some(last_row_cursor), true)
        .list(&site(), flat_rows(6), 1000)
        .unwrap();
    assert_eq!(vec![1, 0], ids_of(&backward));

    // and the forward traversal ends with exactly that page
    let page1 = new_sorted(2, None, false).list(&site(), flat_rows(6), 1000).unwrap();
    let n1 = page1.next_page.unwrap();
    let page2 = new_sorted(2, Some(n1), false).list(&site(), flat_rows(6), 1000).unwrap();
    let n2 = page2.next_page.unwrap();
    let page3 = new_sorted(2, Some(n2), false).list(&site(), flat_rows(6), 1000).unwrap();
    assert_eq!(vec![1, 0], ids_of(&page3));
    assert!(page3.next_page.is_none());
}

#[test]
fn prev_page_resumes_previous_page() {
    // following a page's prev_page backward returns exactly the page
    // before it
    let page1 = new_sorted(2, None, false).list(&site(), flat_rows(6), 1000).unwrap();
    assert_eq!(vec![5, 4], ids_of(&page1));
    assert!(page1.prev_page.is_none());
    let n1 = page1.next_page.clone().unwrap();

    let page2 = new_sorted(2, Some(n1), false).list(&site(), flat_rows(6), 1000).unwrap();
    assert_eq!(vec![3, 2], ids_of(&page2));
    let p2 = page2.prev_page.expect("a page before the second exists");

    let back_to_first = new_sorted(2, Some(p2), true).list(&site(), flat_rows(6), 1000).unwrap();
    assert_eq!(ids_of(&page1), ids_of(&back_to_first));
}

#[test]
fn page_back_without_cursor_is_the_end_page() {
    let end = new_sorted(2, None, true).list(&site(), flat_rows(5), 1000).unwrap();
    assert_eq!(vec![1, 0], ids_of(&end));
    assert!(end.next_page.is_none());

    // its prev_page continues the backward traversal
    let prev = end.prev_page.expect("earlier rows exist");
    let before = new_sorted(2, Some(prev), true).list(&site(), flat_rows(5), 1000).unwrap();
    assert_eq!(vec![3, 2], ids_of(&before));
}

#[test]
fn legacy_page_offsets() {
    let q = |page: i64| CommentQuery {
        sort: Some(CommentSortType::New),
        limit: Some(2),
        page: Some(page),
        ..Default::default()
    };
    let p1 = q(1).list(&site(), flat_rows(5), 1000).unwrap();
    assert_eq!(vec![4, 3], ids_of(&p1));
    let p2 = q(2).list(&site(), flat_rows(5), 1000).unwrap();
    assert_eq!(vec![2, 1], ids_of(&p2));
    let p3 = q(3).list(&site(), flat_rows(5), 1000).unwrap();
    assert_eq!(vec![0], ids_of(&p3));
    let p4 = q(4).list(&site(), flat_rows(5), 1000).unwrap();
    assert!(p4.comments.is_empty());
}

#[test]
fn limit_defaults_and_clamps() {
    // unspecified: ten rows
    let dflt = CommentQuery { sort: Some(CommentSortType::New), ..Default::default() }
        .list(&site(), flat_rows(60), 1000)
        .unwrap();
    assert_eq!(10, dflt.comments.len());
    // beyond the maximum: clamped to fifty, not refused
    let clamped = CommentQuery {
        sort: Some(CommentSortType::New),
        limit: Some(100),
        ..Default::default()
    }
    .list(&site(), flat_rows(60), 1000)
    .unwrap();
    assert_eq!(50, clamped.comments.len());
}

#[test]
fn invalid_pagination_refused() {
    let bad_limit = CommentQuery { limit: Some(0), ..Default::default() }
        .list(&site(), flat_rows(5), 1000);
    assert_eq!(bad_limit.err(), Some(EngineError::InvalidPagination));

    let bad_page = CommentQuery { page: Some(0), ..Default::default() }
        .list(&site(), flat_rows(5), 1000);
    assert_eq!(bad_page.err(), Some(EngineError::InvalidPagination));

    let huge_page = CommentQuery { page: Some(10001), ..Default::default() }
        .list(&site(), flat_rows(5), 1000);
    assert_eq!(huge_page.err(), Some(EngineError::InvalidPagination));
}

#[test]
fn tampered_cursor_refused() {
    let page1 = new_sorted(2, None, false).list(&site(), flat_rows(5), 1000).unwrap();
    let mut token = page1.next_page.unwrap();
    token.0[2] = 88;
    let r = new_sorted(2, Some(token), false).list(&site(), flat_rows(5), 1000);
    assert_eq!(r.err(), Some(EngineError::InvalidCursor));

    let empty = new_sorted(2, Some(PaginationCursor(Vec::new())), false)
        .list(&site(), flat_rows(5), 1000);
    assert_eq!(empty.err(), Some(EngineError::InvalidCursor));
}

#[test]
fn cursor_of_other_sort_refused() {
    let page1 = new_sorted(2, None, false).list(&site(), flat_rows(5), 1000).unwrap();
    let token = page1.next_page.unwrap();
    let r = CommentQuery {
        sort: Some(CommentSortType::Top),
        limit: Some(2),
        page_cursor: Some(token),
        ..Default::default()
    }
    .list(&site(), flat_rows(5), 1000);
    assert_eq!(r.err(), Some(EngineError::InvalidCursor));
}

#[test]
fn cursor_codec_round_trips() {
    let keys = [
        CursorKey {
            sort: CommentSortType::Hot,
            distinguished: true,
            k1: i64::MIN,
            k2: i64::MAX,
            id: i32::MIN,
        },
        CursorKey {
            sort: CommentSortType::Old,
            distinguished: false,
            k1: -1,
            k2: 0,
            id: i32::MAX,
        },
        CursorKey { sort: CommentSortType::Top, distinguished: false, k1: 42, k2: 7, id: 0 },
    ];
    for k in keys {
        let token = encode_cursor(k);
        assert_eq!(Some(k), decode_cursor(&token));
    }
}

#[test]
fn depth_fetch_caps_and_ignores_pagination() {
    let mut rows = Vec::new();
    for i in 0..400 {
        rows.push(row(i, 100 + i as i64));
    }
    let fetched = CommentQuery {
        max_depth: Some(5),
        limit: Some(2),
        ..Default::default()
    }
    .list(&site(), rows, 1000)
    .unwrap();
    // the fixed cap applies instead of the caller's limit, and no
    // cursors are issued
    assert_eq!(300, fetched.comments.len());
    assert!(fetched.next_page.is_none());
    assert!(fetched.prev_page.is_none());
}

#[test]
fn empty_snapshot_yields_empty_page() {
    let resp = CommentQuery::default().list(&site(), Vec::new(), 1000).unwrap();
    assert!(resp.comments.is_empty());
    assert!(resp.next_page.is_none());
    assert!(resp.prev_page.is_none());
}

#[test]
fn depth_zero_keeps_nothing() {
    let resp = CommentQuery { max_depth: Some(0), ..Default::default() }
        .list(&site(), flat_rows(5), 1000)
        .unwrap();
    assert!(resp.comments.is_empty());
}

#[test]
fn sorts_order_by_their_keys() {
    let mut rows = flat_rows(3);
    rows[0].comment.score = 5;
    rows[1].comment.score = 9;
    rows[2].comment.score = 1;
    let top = CommentQuery { sort: Some(CommentSortType::Top), ..Default::default() }
        .list(&site(), rows, 1000)
        .unwrap();
    assert_eq!(vec![1, 0, 2], ids_of(&top));

    let mut rows = flat_rows(3);
    rows[0].comment.hot_rank = 3;
    rows[1].comment.hot_rank = 3;
    rows[1].comment.score = -2;
    rows[2].comment.hot_rank = 8;
    let hot = CommentQuery { sort: Some(CommentSortType::Hot), ..Default::default() }
        .list(&site(), rows, 1000)
        .unwrap();
    // hot rank first, then score as the tie-break
    assert_eq!(vec![2, 0, 1], ids_of(&hot));

    let mut rows = flat_rows(3);
    rows[0].comment.controversy_rank = 1;
    rows[2].comment.controversy_rank = 4;
    let controversial =
        CommentQuery { sort: Some(CommentSortType::Controversial), ..Default::default() }
            .list(&site(), rows, 1000)
            .unwrap();
    assert_eq!(vec![2, 0, 1], ids_of(&controversial));

    let old = CommentQuery { sort: Some(CommentSortType::Old), ..Default::default() }
        .list(&site(), flat_rows(3), 1000)
        .unwrap();
    assert_eq!(vec![0, 1, 2], ids_of(&old));
}

#[test]
fn liked_takes_precedence_over_disliked() {
    let mut rows = flat_rows(3);
    rows[1].comment.creator_id = PersonId(2);
    rows[1].creator.id = PersonId(2);
    rows[1].comment_actions =
        Some(CommentActions { like_score: Some(1), liked_at: Some(7), saved_at: None });
    rows[2].comment.creator_id = PersonId(3);
    rows[2].creator.id = PersonId(3);
    rows[2].comment_actions =
        Some(CommentActions { like_score: Some(-1), liked_at: Some(8), saved_at: None });
    let me = ViewerContext {
        person_id: PersonId(1),
        is_admin: false,
        blocked_person_ids: vec![],
        blocked_instance_ids: vec![],
        enabled_language_ids: vec![],
        show_nsfw: false,
        show_bot_accounts: true,
        show_read_posts: true,
    };
    let both = CommentQuery {
        viewer: Some(me),
        liked_only: Some(true),
        disliked_only: Some(true),
        ..Default::default()
    }
    .list(&site(), rows, 1000)
    .unwrap();
    assert_eq!(vec![1], ids_of(&both));
}

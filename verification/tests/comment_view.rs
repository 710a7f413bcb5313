//! Listing and single-read scenarios over a six-comment thread:
//!
//! ```text
//!       0
//!     /   \
//!    1     2
//!   / \
//!  3   4
//!       \
//!        5
//! ```
//!
//! Comment 1 is written by sara, the rest by timmy, who is an admin
//! and has blocked sara.

use thread_engine::ids::{CommentId, CommunityId, InstanceId, LanguageId, PersonId, PostId};
use thread_engine::model::{
    Comment, CommentActions, CommentSortType, Community, CommunityActions,
    CommunityFollowerState, CommunityVisibility, ListingType, Person, PersonActions, Post, Site,
    ThreadPath,
};
use thread_engine::query::{CommentQuery, EngineError, GetCommentsResponse};
use thread_engine::view::CommentView;
use thread_engine::viewer::{resolve_viewer, AuthenticatedViewer, ViewerContext};

const UND: i32 = 0;
const EN: i32 = 1;
const FI: i32 = 2;
const PL: i32 = 3;

const TIMMY: i32 = 1;
const SARA: i32 = 2;

fn row(id: i32, creator: i32, name: &str, path: &[i32], lang: i32, published: i64) -> CommentView {
    CommentView {
        comment: Comment {
            id: CommentId(id),
            creator_id: PersonId(creator),
            post_id: PostId(1),
            content: format!("Comment {}", id),
            removed: false,
            deleted: false,
            path: ThreadPath { segments: path.iter().map(|x| CommentId(*x)).collect() },
            distinguished: false,
            language_id: LanguageId(lang),
            score: 0,
            hot_rank: 0,
            controversy_rank: 0,
            published_at: published,
            federation_pending: false,
        },
        creator: Person {
            id: PersonId(creator),
            instance_id: InstanceId(1),
            name: name.to_string(),
            bot_account: false,
        },
        post: Post { id: PostId(1), community_id: CommunityId(1), nsfw: false },
        community: Community {
            id: CommunityId(1),
            instance_id: InstanceId(1),
            local: true,
            nsfw: false,
            visibility: CommunityVisibility::Public,
        },
        community_actions: None,
        comment_actions: None,
        person_actions: None,
        instance_actions: None,
        creator_community_actions: None,
        creator_is_admin: creator == TIMMY,
        can_mod: false,
    }
}

fn tree_rows() -> Vec<CommentView> {
    vec![
        row(0, TIMMY, "timmy", &[0], EN, 100),
        row(1, SARA, "sara", &[0, 1], EN, 101),
        row(2, TIMMY, "timmy", &[0, 2], FI, 102),
        row(3, TIMMY, "timmy", &[0, 1, 3], EN, 103),
        row(4, TIMMY, "timmy", &[0, 1, 4], PL, 104),
        row(5, TIMMY, "timmy", &[0, 1, 4, 5], UND, 105),
    ]
}

/// The snapshot as the store joins it for timmy: his like of comment
/// 0 and his block of sara are visible in the action columns.
fn timmy_rows() -> Vec<CommentView> {
    let mut v = tree_rows();
    v[0].comment_actions =
        Some(CommentActions { like_score: Some(1), liked_at: Some(100), saved_at: None });
    v[1].person_actions = Some(PersonActions { blocked_at: Some(50) });
    v
}

fn viewer(person: i32, admin: bool, blocked: &[i32], langs: &[i32]) -> ViewerContext {
    ViewerContext {
        person_id: PersonId(person),
        is_admin: admin,
        blocked_person_ids: blocked.iter().map(|x| PersonId(*x)).collect(),
        blocked_instance_ids: vec![],
        enabled_language_ids: langs.iter().map(|x| LanguageId(*x)).collect(),
        show_nsfw: false,
        show_bot_accounts: true,
        show_read_posts: true,
    }
}

fn timmy() -> ViewerContext {
    viewer(TIMMY, true, &[SARA], &[])
}

fn site() -> Site {
    Site { content_warning: None }
}

fn parent(path: &[i32]) -> ThreadPath {
    ThreadPath { segments: path.iter().map(|x| CommentId(*x)).collect() }
}

fn ids_of(resp: &GetCommentsResponse) -> Vec<i32> {
    resp.comments.iter().map(|c| c.comment.id.0).collect()
}

fn set_visibility(rows: &mut Vec<CommentView>, vis: CommunityVisibility) {
    for r in rows.iter_mut() {
        r.community.visibility = vis;
    }
}

#[test]
fn test_crud() {
    let no_person = CommentQuery {
        sort: Some(CommentSortType::Old),
        post_id: Some(PostId(1)),
        ..Default::default()
    }
    .list(&site(), tree_rows(), 1000)
    .unwrap();
    assert!(no_person.comments[0].comment_actions.is_none());
    assert!(!no_person.comments[0].can_mod);

    let with_person = CommentQuery {
        sort: Some(CommentSortType::Old),
        post_id: Some(PostId(1)),
        viewer: Some(timmy()),
        ..Default::default()
    }
    .list(&site(), timmy_rows(), 1000)
    .unwrap();
    assert!(with_person.comments[0]
        .comment_actions
        .as_ref()
        .is_some_and(|x| x.like_score == Some(1)));
    assert!(with_person.comments[0].can_mod);
    // the blocked creator's comment is missing
    assert_eq!(5, with_person.comments.len());

    // a single read of the blocked creator's comment is not found,
    // indistinguishable from a missing item
    let read = CommentView::read(timmy_rows(), CommentId(1), &Some(timmy()));
    assert_eq!(read.err(), Some(EngineError::NotFound));
}

#[test]
fn test_liked_only() {
    // sara unblocked; timmy has liked comment 0 (his own) and 1
    let mut rows = tree_rows();
    rows[0].comment_actions =
        Some(CommentActions { like_score: Some(1), liked_at: Some(100), saved_at: None });
    rows[1].comment_actions =
        Some(CommentActions { like_score: Some(1), liked_at: Some(101), saved_at: None });
    let unblocked = viewer(TIMMY, true, &[], &[]);

    let liked = CommentQuery {
        viewer: Some(unblocked),
        liked_only: Some(true),
        ..Default::default()
    }
    .list(&site(), rows, 1000)
    .unwrap();
    // not your own comment, only other people's
    assert_eq!("Comment 1", liked.comments[0].comment.content);
    assert_eq!(1, liked.comments.len());

    let mut rows2 = tree_rows();
    rows2[0].comment_actions =
        Some(CommentActions { like_score: Some(1), liked_at: Some(100), saved_at: None });
    let disliked = CommentQuery {
        viewer: Some(viewer(TIMMY, true, &[], &[])),
        disliked_only: Some(true),
        ..Default::default()
    }
    .list(&site(), rows2, 1000)
    .unwrap();
    assert!(disliked.comments.is_empty());
}

#[test]
fn test_comment_tree() {
    // the subtree below the root: everything but the root itself
    let top_path = CommentQuery {
        post_id: Some(PostId(1)),
        parent_path: Some(parent(&[0])),
        ..Default::default()
    }
    .list(&site(), tree_rows(), 1000)
    .unwrap();
    assert_eq!(5, top_path.comments.len());
    assert!(!ids_of(&top_path).contains(&0));

    // the subtree below comment 1: neither the parent itself nor the
    // other branch
    let child_path = CommentQuery {
        post_id: Some(PostId(1)),
        parent_path: Some(parent(&[0, 1])),
        ..Default::default()
    }
    .list(&site(), tree_rows(), 1000)
    .unwrap();
    assert_eq!(3, child_path.comments.len());
    let child_ids = ids_of(&child_path);
    assert!(child_ids.contains(&3));
    assert!(!child_ids.contains(&1));
    assert!(!child_ids.contains(&2));

    let top_max_depth = CommentQuery {
        post_id: Some(PostId(1)),
        max_depth: Some(1),
        ..Default::default()
    }
    .list(&site(), tree_rows(), 1000)
    .unwrap();
    assert_eq!(1, top_max_depth.comments.len());
    assert_eq!(0, top_max_depth.comments[0].comment.id.0);

    // one level below comment 1: its two children, newest first,
    // the grandchild excluded
    let parent_max_depth = CommentQuery {
        post_id: Some(PostId(1)),
        parent_path: Some(parent(&[0, 1])),
        max_depth: Some(1),
        sort: Some(CommentSortType::New),
        ..Default::default()
    }
    .list(&site(), tree_rows(), 1000)
    .unwrap();
    assert_eq!(vec![4, 3], ids_of(&parent_max_depth));
    assert!(parent_max_depth.comments[1].comment.content.eq("Comment 3"));
}

#[test]
fn test_languages() {
    // all languages enabled: everything but the blocked creator's
    let all_languages = CommentQuery { viewer: Some(timmy()), ..Default::default() }
        .list(&site(), timmy_rows(), 1000)
        .unwrap();
    assert_eq!(5, all_languages.comments.len());

    // only finnish enabled: one comment
    let finnish_comments = CommentQuery {
        viewer: Some(viewer(TIMMY, true, &[SARA], &[FI])),
        ..Default::default()
    }
    .list(&site(), timmy_rows(), 1000)
    .unwrap();
    assert_eq!(1, finnish_comments.comments.len());
    let finnish_comment =
        finnish_comments.comments.iter().find(|c| c.comment.language_id.0 == FI);
    assert!(finnish_comment.is_some());
    assert_eq!("Comment 2", finnish_comment.unwrap().comment.content);

    // only the undetermined language enabled: the language-less one
    let undetermined = CommentQuery {
        viewer: Some(viewer(TIMMY, true, &[SARA], &[UND])),
        ..Default::default()
    }
    .list(&site(), timmy_rows(), 1000)
    .unwrap();
    assert_eq!(1, undetermined.comments.len());
    assert_eq!(5, undetermined.comments[0].comment.id.0);
}

#[test]
fn test_distinguished_first() {
    let mut rows = tree_rows();
    rows[2].comment.distinguished = true;
    let comments = CommentQuery { post_id: Some(PostId(1)), ..Default::default() }
        .list(&site(), rows, 1000)
        .unwrap();
    assert_eq!(comments.comments[0].comment.id.0, 2);
    assert!(comments.comments[0].comment.distinguished);
    // and everything after the distinguished block is undistinguished
    for c in comments.comments.iter().skip(1) {
        assert!(!c.comment.distinguished);
    }
}

#[test]
fn distinguished_not_promoted_unscoped() {
    // without a post or subtree scope the distinguished flag does
    // not reorder the listing
    let mut rows = tree_rows();
    rows[5].comment.distinguished = true;
    let comments = CommentQuery { sort: Some(CommentSortType::Old), ..Default::default() }
        .list(&site(), rows, 1000)
        .unwrap();
    assert_eq!(vec![0, 1, 2, 3, 4, 5], ids_of(&comments));
}

#[test]
fn test_creator_is_moderator() {
    let mut rows = tree_rows();
    rows[1].creator_community_actions = Some(CommunityActions {
        follow_state: None,
        followed_at: None,
        became_moderator_at: Some(60),
        received_ban_at: None,
    });
    let comments = CommentQuery { sort: Some(CommentSortType::Old), ..Default::default() }
        .list(&site(), rows, 1000)
        .unwrap();
    assert_eq!(comments.comments[1].creator.name, "sara");
    assert!(comments.comments[1]
        .creator_community_actions
        .as_ref()
        .is_some_and(|x| x.became_moderator_at.is_some()));
    assert!(comments.comments[0].creator_community_actions.is_none());
}

#[test]
fn test_creator_is_admin() {
    let comments = CommentQuery { sort: Some(CommentSortType::Old), ..Default::default() }
        .list(&site(), tree_rows(), 1000)
        .unwrap();
    assert_eq!(comments.comments[0].creator.name, "timmy");
    assert!(comments.comments[0].creator_is_admin);
    assert_eq!(comments.comments[1].creator.name, "sara");
    assert!(!comments.comments[1].creator_is_admin);
}

#[test]
fn local_only_instance() {
    let mut anon_rows = tree_rows();
    set_visibility(&mut anon_rows, CommunityVisibility::LocalOnlyPrivate);
    let unauthenticated = CommentQuery { ..Default::default() }
        .list(&site(), anon_rows, 1000)
        .unwrap();
    assert_eq!(0, unauthenticated.comments.len());

    let mut auth_rows = timmy_rows();
    set_visibility(&mut auth_rows, CommunityVisibility::LocalOnlyPrivate);
    let authenticated = CommentQuery { viewer: Some(timmy()), ..Default::default() }
        .list(&site(), auth_rows, 1000)
        .unwrap();
    assert_eq!(5, authenticated.comments.len());

    let mut read_rows = tree_rows();
    set_visibility(&mut read_rows, CommunityVisibility::LocalOnlyPrivate);
    let unauthenticated_comment = CommentView::read(read_rows, CommentId(0), &None);
    assert!(unauthenticated_comment.is_err());

    let mut read_rows2 = timmy_rows();
    set_visibility(&mut read_rows2, CommunityVisibility::LocalOnlyPrivate);
    let authenticated_comment =
        CommentView::read(read_rows2, CommentId(0), &Some(timmy()));
    assert!(authenticated_comment.is_ok());
}

#[test]
fn comment_listing_local_user_banned_from_community() {
    // jill is banned from the community; the view shows the ban
    let mut rows = tree_rows();
    rows[0].community_actions = Some(CommunityActions {
        follow_state: None,
        followed_at: None,
        became_moderator_at: None,
        received_ban_at: Some(70),
    });
    let jill = viewer(3, false, &[], &[]);
    let comment_view = CommentView::read(rows, CommentId(0), &Some(jill)).unwrap();
    assert!(comment_view
        .community_actions
        .is_some_and(|x| x.received_ban_at.is_some()));
}

#[test]
fn comment_listing_local_user_not_banned_from_community() {
    let comment_view =
        CommentView::read(timmy_rows(), CommentId(0), &Some(timmy())).unwrap();
    assert!(comment_view.community_actions.is_none());
}

#[test]
fn comment_listings_hide_nsfw() {
    // the post is marked NSFW: nothing is listed for the
    // unauthenticated viewer
    let mut rows = tree_rows();
    for r in rows.iter_mut() {
        r.post.nsfw = true;
    }
    let comments = CommentQuery::default().list(&site(), rows, 1000).unwrap();
    assert_eq!(0, comments.comments.len());

    // a site with a content warning shows them to a viewer who
    // opted in
    let mut rows2 = tree_rows();
    for r in rows2.iter_mut() {
        r.post.nsfw = true;
    }
    let mut hank = viewer(9, false, &[], &[]);
    hank.show_nsfw = true;
    let warned_site = Site { content_warning: Some("nsfw".to_string()) };
    let comments = CommentQuery { viewer: Some(hank), ..Default::default() }
        .list(&warned_site, rows2, 1000)
        .unwrap();
    assert_eq!(6, comments.comments.len());
}

#[test]
fn comment_listing_private_community() {
    let mut rows = tree_rows();
    set_visibility(&mut rows, CommunityVisibility::Private);

    // nothing without auth
    let listing = CommentQuery::default().list(&site(), rows, 1000).unwrap();
    assert_eq!(0, listing.comments.len());
    let mut rows = tree_rows();
    set_visibility(&mut rows, CommunityVisibility::Private);
    let comment_view = CommentView::read(rows, CommentId(0), &None);
    assert!(comment_view.is_err());

    // nothing for a non-follower who is not an admin
    let timmy_not_admin = viewer(TIMMY, false, &[SARA], &[]);
    let mut rows = timmy_rows();
    set_visibility(&mut rows, CommunityVisibility::Private);
    let listing = CommentQuery {
        community_id: Some(CommunityId(1)),
        viewer: Some(timmy_not_admin),
        ..Default::default()
    }
    .list(&site(), rows, 1000)
    .unwrap();
    assert_eq!(0, listing.comments.len());
    let mut rows = timmy_rows();
    set_visibility(&mut rows, CommunityVisibility::Private);
    let comment_view =
        CommentView::read(rows, CommentId(0), &Some(viewer(TIMMY, false, &[SARA], &[])));
    assert!(comment_view.is_err());

    // an admin can view content without following
    let mut rows = timmy_rows();
    set_visibility(&mut rows, CommunityVisibility::Private);
    let listing = CommentQuery {
        community_id: Some(CommunityId(1)),
        viewer: Some(timmy()),
        ..Default::default()
    }
    .list(&site(), rows, 1000)
    .unwrap();
    assert_eq!(5, listing.comments.len());
    let mut rows = timmy_rows();
    set_visibility(&mut rows, CommunityVisibility::Private);
    let comment_view = CommentView::read(rows, CommentId(0), &Some(timmy()));
    assert!(comment_view.is_ok());

    // a viewer whose follow was accepted can view
    let accepted = |mut rows: Vec<CommentView>| {
        set_visibility(&mut rows, CommunityVisibility::Private);
        for r in rows.iter_mut() {
            r.community_actions = Some(CommunityActions {
                follow_state: Some(CommunityFollowerState::Accepted),
                followed_at: Some(80),
                became_moderator_at: None,
                received_ban_at: None,
            });
        }
        rows
    };
    let listing = CommentQuery {
        community_id: Some(CommunityId(1)),
        viewer: Some(viewer(TIMMY, false, &[SARA], &[])),
        ..Default::default()
    }
    .list(&site(), accepted(timmy_rows()), 1000)
    .unwrap();
    assert_eq!(5, listing.comments.len());
    let comment_view = CommentView::read(
        accepted(timmy_rows()),
        CommentId(0),
        &Some(viewer(TIMMY, false, &[SARA], &[])),
    );
    assert!(comment_view.is_ok());
}

#[test]
fn comment_removed() {
    // read as a normal user: the content is cleared
    let removed = |mut rows: Vec<CommentView>| {
        rows[0].comment.removed = true;
        rows
    };
    let timmy_not_admin = || viewer(TIMMY, false, &[SARA], &[]);
    let comment_view =
        CommentView::read(removed(timmy_rows()), CommentId(0), &Some(timmy_not_admin()))
            .unwrap();
    assert_eq!("", comment_view.comment.content);
    let listing = CommentQuery {
        community_id: Some(CommunityId(1)),
        viewer: Some(timmy_not_admin()),
        sort: Some(CommentSortType::Old),
        ..Default::default()
    }
    .list(&site(), removed(timmy_rows()), 1000)
    .unwrap();
    assert_eq!("", listing.comments[0].comment.content);

    // read as an admin: the content is returned
    let comment_view =
        CommentView::read(removed(timmy_rows()), CommentId(0), &Some(timmy())).unwrap();
    assert_eq!("Comment 0", comment_view.comment.content);
    let listing = CommentQuery {
        community_id: Some(CommunityId(1)),
        viewer: Some(timmy()),
        sort: Some(CommentSortType::Old),
        ..Default::default()
    }
    .list(&site(), removed(timmy_rows()), 1000)
    .unwrap();
    assert_eq!("Comment 0", listing.comments[0].comment.content);
}

#[test]
fn removed_comment_shown_to_moderator() {
    // a moderator of the owning community sees the true body
    let mut rows = tree_rows();
    rows[0].comment.removed = true;
    rows[0].community_actions = Some(CommunityActions {
        follow_state: None,
        followed_at: None,
        became_moderator_at: Some(60),
        received_ban_at: None,
    });
    let moderator = viewer(7, false, &[], &[]);
    let comment_view = CommentView::read(rows, CommentId(0), &Some(moderator)).unwrap();
    assert_eq!("Comment 0", comment_view.comment.content);
    assert!(comment_view.can_mod);
}

#[test]
fn blocked_instance_creator_hidden() {
    // sara's instance is blocked: her comment is absent and a direct
    // read is not found
    let mut rows = tree_rows();
    rows[1].creator.instance_id = InstanceId(2);
    let mut blocker = viewer(TIMMY, false, &[], &[]);
    blocker.blocked_instance_ids = vec![InstanceId(2)];
    let listing = CommentQuery { viewer: Some(blocker), ..Default::default() }
        .list(&site(), rows, 1000)
        .unwrap();
    assert!(!ids_of(&listing).contains(&1));
    assert_eq!(5, listing.comments.len());

    let mut rows = tree_rows();
    rows[1].creator.instance_id = InstanceId(2);
    let mut blocker = viewer(TIMMY, false, &[], &[]);
    blocker.blocked_instance_ids = vec![InstanceId(2)];
    let read = CommentView::read(rows, CommentId(1), &Some(blocker));
    assert_eq!(read.err(), Some(EngineError::NotFound));
}

#[test]
fn federation_pending_visible_only_to_creator() {
    let pending = |mut rows: Vec<CommentView>| {
        rows[3].comment.federation_pending = true;
        rows
    };
    let anon = CommentQuery::default().list(&site(), pending(tree_rows()), 1000).unwrap();
    assert!(!ids_of(&anon).contains(&3));

    let as_creator = CommentQuery {
        viewer: Some(viewer(TIMMY, false, &[], &[])),
        ..Default::default()
    }
    .list(&site(), pending(tree_rows()), 1000)
    .unwrap();
    assert!(ids_of(&as_creator).contains(&3));

    let as_other = CommentQuery {
        viewer: Some(viewer(SARA, false, &[], &[])),
        ..Default::default()
    }
    .list(&site(), pending(tree_rows()), 1000)
    .unwrap();
    assert!(!ids_of(&as_other).contains(&3));

    let read = CommentView::read(pending(tree_rows()), CommentId(3), &None);
    assert_eq!(read.err(), Some(EngineError::NotFound));
}

#[test]
fn bot_accounts_hidden_when_opted_out() {
    let bots = |mut rows: Vec<CommentView>| {
        rows[2].creator.bot_account = true;
        rows
    };
    let mut no_bots = viewer(9, false, &[], &[]);
    no_bots.show_bot_accounts = false;
    let listing = CommentQuery { viewer: Some(no_bots), ..Default::default() }
        .list(&site(), bots(tree_rows()), 1000)
        .unwrap();
    assert!(!ids_of(&listing).contains(&2));

    let listing = CommentQuery {
        viewer: Some(viewer(9, false, &[], &[])),
        ..Default::default()
    }
    .list(&site(), bots(tree_rows()), 1000)
    .unwrap();
    assert!(ids_of(&listing).contains(&2));
}

#[test]
fn time_range_keeps_recent_items() {
    let listing = CommentQuery {
        time_range_seconds: Some(3),
        sort: Some(CommentSortType::Old),
        ..Default::default()
    }
    .list(&site(), tree_rows(), 106)
    .unwrap();
    // published strictly after 106 - 3 = 103
    assert_eq!(vec![4, 5], ids_of(&listing));
}

#[test]
fn subscribed_and_local_listing_types() {
    // subscribed: only communities with a follow relation
    let followed = |mut rows: Vec<CommentView>| {
        for r in rows.iter_mut() {
            r.community_actions = Some(CommunityActions {
                follow_state: Some(CommunityFollowerState::Accepted),
                followed_at: Some(80),
                became_moderator_at: None,
                received_ban_at: None,
            });
        }
        rows
    };
    let subscribed = CommentQuery {
        listing_type: Some(ListingType::Subscribed),
        viewer: Some(viewer(9, false, &[], &[])),
        ..Default::default()
    }
    .list(&site(), followed(tree_rows()), 1000)
    .unwrap();
    assert_eq!(6, subscribed.comments.len());

    let not_subscribed = CommentQuery {
        listing_type: Some(ListingType::Subscribed),
        viewer: Some(viewer(9, false, &[], &[])),
        ..Default::default()
    }
    .list(&site(), tree_rows(), 1000)
    .unwrap();
    assert_eq!(0, not_subscribed.comments.len());

    // local: only local communities
    let mut remote = tree_rows();
    for r in remote.iter_mut() {
        r.community.local = false;
    }
    let local = CommentQuery { listing_type: Some(ListingType::Local), ..Default::default() }
        .list(&site(), remote, 1000)
        .unwrap();
    assert_eq!(0, local.comments.len());
}

#[test]
fn moderator_view_skips_language_filter() {
    // a moderator with only finnish enabled still sees every comment
    // of the communities they moderate
    let mut rows = tree_rows();
    for r in rows.iter_mut() {
        r.community_actions = Some(CommunityActions {
            follow_state: None,
            followed_at: None,
            became_moderator_at: Some(60),
            received_ban_at: None,
        });
    }
    let listing = CommentQuery {
        listing_type: Some(ListingType::ModeratorView),
        viewer: Some(viewer(9, false, &[], &[FI])),
        ..Default::default()
    }
    .list(&site(), rows, 1000)
    .unwrap();
    assert_eq!(6, listing.comments.len());
}

#[test]
fn single_read_nsfw_gated_by_preference_alone() {
    // single reads ignore the site flag but honor the viewer's
    // preference; the unauthenticated viewer has not opted in
    let nsfw = |mut rows: Vec<CommentView>| {
        rows[0].post.nsfw = true;
        rows
    };
    let anon = CommentView::read(nsfw(tree_rows()), CommentId(0), &None);
    assert_eq!(anon.err(), Some(EngineError::NotFound));

    let mut opted_in = viewer(9, false, &[], &[]);
    opted_in.show_nsfw = true;
    let read = CommentView::read(nsfw(tree_rows()), CommentId(0), &Some(opted_in));
    assert!(read.is_ok());
}

#[test]
fn unscoped_depth_limit_keeps_roots_only() {
    // no post or subtree scope: the depth ceiling alone restricts,
    // and root items have path length one
    let listing = CommentQuery { max_depth: Some(1), ..Default::default() }
        .list(&site(), tree_rows(), 1000)
        .unwrap();
    assert_eq!(vec![0], ids_of(&listing));
}

#[test]
fn read_missing_comment_not_found() {
    let read = CommentView::read(tree_rows(), CommentId(99), &None);
    assert_eq!(read.err(), Some(EngineError::NotFound));
}

#[test]
fn map_to_slim_keeps_fields() {
    let mut rows = timmy_rows();
    let v = rows.remove(0);
    let slim = v.map_to_slim();
    assert_eq!(0, slim.comment.id.0);
    assert_eq!("timmy", slim.creator.name);
    assert!(slim.comment_actions.is_some_and(|x| x.like_score == Some(1)));
    assert!(slim.creator_is_admin);
}

#[test]
fn resolve_viewer_normalizes() {
    let resolved = resolve_viewer(
        Some(AuthenticatedViewer {
            person_id: PersonId(4),
            is_admin: false,
            show_nsfw: true,
            show_bot_accounts: false,
            show_read_posts: true,
        }),
        vec![PersonId(2)],
        vec![InstanceId(3)],
        vec![LanguageId(FI)],
    );
    let v = resolved.unwrap();
    assert_eq!(4, v.person_id.0);
    assert!(v.show_nsfw);
    assert!(!v.show_bot_accounts);
    assert_eq!(vec![PersonId(2)], v.blocked_person_ids);
    assert_eq!(vec![InstanceId(3)], v.blocked_instance_ids);
    assert_eq!(vec![LanguageId(FI)], v.enabled_language_ids);

    assert!(resolve_viewer(None, vec![], vec![], vec![]).is_none());
}

#[test]
fn self_authored_items_never_self_filtered() {
    // a viewer who somehow blocks themself still sees their own items
    let listing = CommentQuery {
        viewer: Some(viewer(TIMMY, false, &[TIMMY], &[])),
        ..Default::default()
    }
    .list(&site(), tree_rows(), 1000)
    .unwrap();
    assert!(ids_of(&listing).contains(&0));
}

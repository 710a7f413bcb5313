//! The listing request shape, its response, and the engine errors.

use vstd::prelude::*;
use crate::cursor::PaginationCursor;
use crate::ids::{CommunityId, PersonId, PostId};
use crate::model::{CommentSortType, ListingType, ThreadPath};
use crate::view::CommentView;
use crate::viewer::ViewerContext;

verus! {

/// Failures the engine reports to its caller.
#[derive(Clone, Copy, Debug, PartialEq, Eq, Structural)]
pub enum EngineError {
    /// A page cursor failed to decode, or names a ranking key
    /// incompatible with the requested sort.
    InvalidCursor,
    /// A legacy page or limit outside the allowed bounds.
    InvalidPagination,
    /// The item does not exist, or exists but is not visible to this
    /// viewer; the two cases are indistinguishable by design.
    NotFound,
}

/// A listing request: scope, viewer, ranking, and pagination.
///
/// Unset fields fall back to defined defaults: listing type `All`,
/// sort `Hot`, no scope restriction, cursor pagination from the
/// start with the default limit.
#[derive(Debug)]
pub struct CommentQuery {
    pub listing_type: Option<ListingType>,
    pub sort: Option<CommentSortType>,
    /// Restrict to items published within this trailing window, in
    /// seconds before the query's reference time.
    pub time_range_seconds: Option<i32>,
    pub community_id: Option<CommunityId>,
    pub post_id: Option<PostId>,
    /// Restrict to the proper subtree below this path; the item the
    /// path names is itself excluded.
    pub parent_path: Option<ThreadPath>,
    pub creator_id: Option<PersonId>,
    /// The resolved viewer; `None` is the unauthenticated viewer.
    pub viewer: Option<ViewerContext>,
    pub liked_only: Option<bool>,
    pub disliked_only: Option<bool>,
    /// Legacy pagination: 1-based page number, used only when no
    /// cursor is given.
    pub page: Option<i64>,
    pub limit: Option<i64>,
    /// Depth-limited tree fetch: absolute depth ceiling relative to
    /// the parent (or to the root), with pagination disabled.
    pub max_depth: Option<i32>,
    pub page_cursor: Option<PaginationCursor>,
    /// Reverse traversal: return the rows ending at the cursor's
    /// boundary (the end of the listing when no cursor is given).
    pub page_back: Option<bool>,
}

impl Default for CommentQuery {
    /// The empty request: an unauthenticated, unscoped first page.
    fn default() -> (r: Self)
        ensures
            r.listing_type is None,
            r.sort is None,
            r.time_range_seconds is None,
            r.community_id is None,
            r.post_id is None,
            r.parent_path is None,
            r.creator_id is None,
            r.viewer is None,
            r.liked_only is None,
            r.disliked_only is None,
            r.page is None,
            r.limit is None,
            r.max_depth is None,
            r.page_cursor is None,
            r.page_back is None,
    {
        CommentQuery {
            listing_type: None,
            sort: None,
            time_range_seconds: None,
            community_id: None,
            post_id: None,
            parent_path: None,
            creator_id: None,
            viewer: None,
            liked_only: None,
            disliked_only: None,
            page: None,
            limit: None,
            max_depth: None,
            page_cursor: None,
            page_back: None,
        }
    }
}

impl CommentQuery {
    /// The effective listing type; `All` when unset.
    pub open spec fn spec_listing_type(self) -> ListingType {
        match self.listing_type {
            Some(t) => t,
            None => ListingType::All,
        }
    }

    /// The effective sort; `Hot` when unset.
    pub open spec fn spec_sort(self) -> CommentSortType {
        match self.sort {
            Some(s) => s,
            None => CommentSortType::Hot,
        }
    }

    /// The query is scoped to a single post or subtree; only then do
    /// distinguished items rank first and does the ancestor-prefix
    /// ordering apply.
    pub open spec fn spec_scoped(self) -> bool {
        self.post_id is Some || self.parent_path is Some
    }
}

/// An ordered page of projected items, with the boundary cursors to
/// continue in either direction (absent when there is no further
/// page that way).
#[derive(Debug)]
pub struct GetCommentsResponse {
    pub comments: Vec<CommentView>,
    pub next_page: Option<PaginationCursor>,
    pub prev_page: Option<PaginationCursor>,
}

} // verus!

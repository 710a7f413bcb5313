//! Entities of the storage snapshot the engine reads.
//!
//! The engine never creates, updates, or deletes these records; the
//! storage collaborator owns them and hands the engine a consistent
//! snapshot of denormalized candidate rows.  Timestamps are plain
//! integers (microseconds since an epoch the storage layer picks);
//! the engine only ever compares them.

use vstd::prelude::*;
use crate::ids::{CommentId, CommunityId, InstanceId, LanguageId, PersonId, PostId};

verus! {

/// Visibility state of a community.
#[derive(Clone, Copy, Debug, PartialEq, Eq, Structural)]
pub enum CommunityVisibility {
    Public,
    LocalOnlyPublic,
    LocalOnlyPrivate,
    Private,
}

/// Approval state of a viewer's follow of a community.  The absence
/// of any follow is modelled as `None` at the use sites.
#[derive(Clone, Copy, Debug, PartialEq, Eq, Structural)]
pub enum CommunityFollowerState {
    Accepted,
    Pending,
    ApprovalRequired,
}

/// Which communities a listing draws from.
#[derive(Clone, Copy, Debug, PartialEq, Eq, Structural)]
pub enum ListingType {
    All,
    Local,
    Subscribed,
    ModeratorView,
}

/// Ranking strategy for a listing.
#[derive(Clone, Copy, Debug, PartialEq, Eq, Structural)]
pub enum CommentSortType {
    Hot,
    Controversial,
    New,
    Old,
    Top,
}

/// Materialized ancestor path of a content item: the ids of all
/// ancestors in root-first order, ending with the item's own id.
/// A root item's path has length 1; path length equals depth + 1.
#[derive(Debug, Clone)]
pub struct ThreadPath {
    pub segments: Vec<CommentId>,
}

impl ThreadPath {
    /// `self` lies strictly below `ancestor`: `ancestor`'s path is a
    /// proper prefix of `self`'s.  The item `ancestor` names is not
    /// its own descendant.
    pub open spec fn spec_descends_from(self, ancestor: ThreadPath) -> bool {
        ancestor.segments@.len() < self.segments@.len() && ancestor.segments@.is_prefix_of(
            self.segments@,
        )
    }

    /// Proper-descent test: is this path strictly inside the subtree
    /// below `ancestor`?
    pub fn descends_from(&self, ancestor: &ThreadPath) -> (r: bool)
        ensures
            r == self.spec_descends_from(*ancestor),
    {
        if ancestor.segments.len() >= self.segments.len() {
            return false;
        }
        let n = ancestor.segments.len();
        let mut i: usize = 0;
        while i < n
            invariant
                i <= n,
                n == ancestor.segments@.len(),
                n < self.segments@.len(),
                forall|j: int| 0 <= j < i ==> ancestor.segments@[j] == self.segments@[j],
            decreases n - i,
        {
            if ancestor.segments[i].0 != self.segments[i].0 {
                assert(ancestor.segments@[i as int] != self.segments@[i as int]);
                assert(!ancestor.segments@.is_prefix_of(self.segments@));
                return false;
            }
            i += 1;
        }
        assert(ancestor.segments@.is_prefix_of(self.segments@)) by {
            assert(ancestor.segments@ =~= self.segments@.subrange(0, n as int));
        }
        true
    }
}

/// A content item: one comment in a thread.
#[derive(Debug, Clone)]
pub struct Comment {
    pub id: CommentId,
    pub creator_id: PersonId,
    pub post_id: PostId,
    pub content: String,
    pub removed: bool,
    pub deleted: bool,
    pub path: ThreadPath,
    pub distinguished: bool,
    pub language_id: LanguageId,
    pub score: i64,
    pub hot_rank: i64,
    pub controversy_rank: i64,
    pub published_at: i64,
    pub federation_pending: bool,
}

/// The creator of a content item, denormalized into the row.
#[derive(Debug, Clone)]
pub struct Person {
    pub id: PersonId,
    pub instance_id: InstanceId,
    pub name: String,
    pub bot_account: bool,
}

/// The post a content item belongs to, denormalized into the row.
#[derive(Debug, Clone)]
pub struct Post {
    pub id: PostId,
    pub community_id: CommunityId,
    pub nsfw: bool,
}

/// The community a content item belongs to, denormalized into the row.
#[derive(Debug, Clone)]
pub struct Community {
    pub id: CommunityId,
    pub instance_id: InstanceId,
    pub local: bool,
    pub nsfw: bool,
    pub visibility: CommunityVisibility,
}

/// Site-wide configuration the engine consults.
#[derive(Debug, Clone)]
pub struct Site {
    /// When set, the site acknowledges adult content with a warning
    /// text; listings may then show NSFW items to viewers who opted
    /// in.
    pub content_warning: Option<String>,
}

/// Viewer-to-community facts, looked up for the row's community.
#[derive(Clone, Copy, Debug, PartialEq, Eq, Structural)]
pub struct CommunityActions {
    pub follow_state: Option<CommunityFollowerState>,
    pub followed_at: Option<i64>,
    pub became_moderator_at: Option<i64>,
    pub received_ban_at: Option<i64>,
}

/// Viewer-to-item facts, looked up for the row's comment.
#[derive(Clone, Copy, Debug, PartialEq, Eq, Structural)]
pub struct CommentActions {
    pub like_score: Option<i16>,
    pub liked_at: Option<i64>,
    pub saved_at: Option<i64>,
}

/// Viewer-to-creator facts, looked up for the row's creator.
#[derive(Clone, Copy, Debug, PartialEq, Eq, Structural)]
pub struct PersonActions {
    pub blocked_at: Option<i64>,
}

/// Viewer-to-instance facts, looked up for the creator's instance.
#[derive(Clone, Copy, Debug, PartialEq, Eq, Structural)]
pub struct InstanceActions {
    pub blocked_at: Option<i64>,
}

} // verus!

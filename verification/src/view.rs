//! Candidate rows and their projections.
//!
//! A [`CommentView`] is one denormalized candidate row as the storage
//! collaborator returns it: the comment together with its creator,
//! post, community, and the viewer-relative action facts.  The engine
//! filters, orders, paginates, and redacts these rows; it never
//! fabricates them.

use vstd::prelude::*;
use crate::model::{
    Comment, CommentActions, Community, CommunityActions, InstanceActions, Person, PersonActions,
    Post,
};

verus! {

/// One candidate row of a listing or single-item read: a comment with
/// its full denormalized context for one particular viewer.
#[derive(Debug, Clone)]
pub struct CommentView {
    pub comment: Comment,
    pub creator: Person,
    pub post: Post,
    pub community: Community,
    /// Facts between the viewer and the row's community.
    pub community_actions: Option<CommunityActions>,
    /// Facts between the viewer and the row's comment.
    pub comment_actions: Option<CommentActions>,
    /// Facts between the viewer and the row's creator.
    pub person_actions: Option<PersonActions>,
    /// Facts between the viewer and the creator's instance.
    pub instance_actions: Option<InstanceActions>,
    /// Facts between the row's creator and the row's community.
    pub creator_community_actions: Option<CommunityActions>,
    pub creator_is_admin: bool,
    /// Whether the viewer may moderate this item; recomputed by the
    /// engine at projection time.
    pub can_mod: bool,
}

/// A reduced projection of [`CommentView`] for callers that already
/// hold the post and community context.
#[derive(Debug, Clone)]
pub struct CommentSlimView {
    pub comment: Comment,
    pub creator: Person,
    pub comment_actions: Option<CommentActions>,
    pub creator_community_actions: Option<CommunityActions>,
    pub person_actions: Option<PersonActions>,
    pub instance_actions: Option<InstanceActions>,
    pub creator_is_admin: bool,
    pub can_mod: bool,
}

impl CommentView {
    /// Project the full view down to the reduced shape: a pure field
    /// subset, never a separate query.
    pub fn map_to_slim(self) -> (r: CommentSlimView)
        ensures
            r.comment == self.comment,
            r.creator == self.creator,
            r.comment_actions == self.comment_actions,
            r.creator_community_actions == self.creator_community_actions,
            r.person_actions == self.person_actions,
            r.instance_actions == self.instance_actions,
            r.creator_is_admin == self.creator_is_admin,
            r.can_mod == self.can_mod,
    {
        CommentSlimView {
            comment: self.comment,
            creator: self.creator,
            comment_actions: self.comment_actions,
            creator_community_actions: self.creator_community_actions,
            person_actions: self.person_actions,
            instance_actions: self.instance_actions,
            creator_is_admin: self.creator_is_admin,
            can_mod: self.can_mod,
        }
    }
}

} // verus!

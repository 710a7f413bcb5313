//! Write-side form records of the surrounding system.
//!
//! The engine itself never writes, but the API surface it belongs to
//! carries these plain records to its collaborators: replies and
//! reports attached to comments, and the account bookkeeping of the
//! registration and sign-in subsystems.  They are data only.

use vstd::prelude::*;
use crate::ids::{CommentId, LocalUserId, OAuthProviderId, PersonId};
use crate::model::Community;

verus! {

/// Acknowledgement returned after blocking or unblocking a
/// community: the community's current record and the block state
/// that now holds.
#[derive(Debug, Clone)]
pub struct BlockCommunityResponse {
    pub community_view: Community,
    pub blocked: bool,
}

/// Insert a reply notification for a comment.
#[derive(Debug)]
pub struct CommentReplyInsertForm {
    pub recipient_id: PersonId,
    pub comment_id: CommentId,
    pub read: Option<bool>,
}

/// Update a reply notification's read flag.
#[derive(Debug)]
pub struct CommentReplyUpdateForm {
    pub read: Option<bool>,
}

/// File a report against a comment.
#[derive(Debug)]
pub struct CommentReportForm {
    pub creator_id: PersonId,
    pub comment_id: CommentId,
    pub original_comment_text: String,
    pub reason: String,
    pub violates_instance_rules: bool,
}

/// Link a local user to an external sign-in account.
#[derive(Debug)]
pub struct OAuthAccountInsertForm {
    pub local_user_id: LocalUserId,
    pub oauth_provider_id: OAuthProviderId,
    pub oauth_user_id: String,
}

/// Open a registration application for a new local user.
#[derive(Debug)]
pub struct RegistrationApplicationInsertForm {
    pub local_user_id: LocalUserId,
    pub answer: String,
}

/// Record an admin's decision on a registration application; the
/// inner options distinguish clearing a value from leaving it.
#[derive(Debug)]
pub struct RegistrationApplicationUpdateForm {
    pub admin_id: Option<Option<PersonId>>,
    pub deny_reason: Option<Option<String>>,
}

} // verus!

//! Identifier newtypes for the entities the engine reads.
//!
//! Every identifier is a plain integer assigned by the storage
//! collaborator; the engine only ever compares them for equality or
//! uses them as ordering tie-breaks.

use vstd::prelude::*;

verus! {

/// Identifier of a content item (a comment).
#[derive(Clone, Copy, Debug, PartialEq, Eq, Structural)]
pub struct CommentId(pub i32);

/// Identifier of a person (a creator or a viewer).
#[derive(Clone, Copy, Debug, PartialEq, Eq, Structural)]
pub struct PersonId(pub i32);

/// Identifier of a post, the root a comment tree hangs from.
#[derive(Clone, Copy, Debug, PartialEq, Eq, Structural)]
pub struct PostId(pub i32);

/// Identifier of a community.
#[derive(Clone, Copy, Debug, PartialEq, Eq, Structural)]
pub struct CommunityId(pub i32);

/// Identifier of a federated instance.
#[derive(Clone, Copy, Debug, PartialEq, Eq, Structural)]
pub struct InstanceId(pub i32);

/// Identifier of a language tag; the "undetermined" language is an
/// ordinary identifier that a viewer must enable explicitly.
#[derive(Clone, Copy, Debug, PartialEq, Eq, Structural)]
pub struct LanguageId(pub i32);

/// Identifier of a local user account.
#[derive(Clone, Copy, Debug, PartialEq, Eq, Structural)]
pub struct LocalUserId(pub i32);

/// Identifier of a registration application.
#[derive(Clone, Copy, Debug, PartialEq, Eq, Structural)]
pub struct RegistrationApplicationId(pub i32);

/// Identifier of an OAuth provider.
#[derive(Clone, Copy, Debug, PartialEq, Eq, Structural)]
pub struct OAuthProviderId(pub i32);

} // verus!

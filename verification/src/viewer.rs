//! The viewer context and its resolver.
//!
//! An authenticated viewer is normalized once into the flags and sets
//! the visibility rules need; every engine entry point then takes an
//! `Option<&ViewerContext>`, where `None` is the unauthenticated
//! viewer (no blocks, all languages, not an admin, no NSFW).

use vstd::prelude::*;
use crate::ids::{InstanceId, LanguageId, PersonId};

verus! {

/// Normalized facts about an authenticated viewer.
#[derive(Debug, Clone)]
pub struct ViewerContext {
    pub person_id: PersonId,
    pub is_admin: bool,
    /// Creators this viewer has blocked.
    pub blocked_person_ids: Vec<PersonId>,
    /// Instances this viewer has blocked.
    pub blocked_instance_ids: Vec<InstanceId>,
    /// Languages this viewer wants to see; the empty set means every
    /// language.  The "undetermined" language id must be listed
    /// explicitly for language-less items to appear.
    pub enabled_language_ids: Vec<LanguageId>,
    pub show_nsfw: bool,
    pub show_bot_accounts: bool,
    pub show_read_posts: bool,
}

/// Account facts of an authenticated identity, as the session layer
/// hands them over.
#[derive(Debug, Clone)]
pub struct AuthenticatedViewer {
    pub person_id: PersonId,
    pub is_admin: bool,
    pub show_nsfw: bool,
    pub show_bot_accounts: bool,
    pub show_read_posts: bool,
}

/// Normalize an optional authenticated identity, together with its
/// looked-up block lists and enabled languages, into the context the
/// engine threads through every rule.  An unauthenticated request
/// resolves to `None`; the rules treat `None` as the default viewer.
pub fn resolve_viewer(
    identity: Option<AuthenticatedViewer>,
    blocked_person_ids: Vec<PersonId>,
    blocked_instance_ids: Vec<InstanceId>,
    enabled_language_ids: Vec<LanguageId>,
) -> (r: Option<ViewerContext>)
    ensures
        identity is None <==> r is None,
        identity matches Some(id) ==> r matches Some(v) && {
            &&& v.person_id == id.person_id
            &&& v.is_admin == id.is_admin
            &&& v.show_nsfw == id.show_nsfw
            &&& v.show_bot_accounts == id.show_bot_accounts
            &&& v.show_read_posts == id.show_read_posts
            &&& v.blocked_person_ids@ == blocked_person_ids@
            &&& v.blocked_instance_ids@ == blocked_instance_ids@
            &&& v.enabled_language_ids@ == enabled_language_ids@
        },
{
    match identity {
        None => None,
        Some(id) => Some(ViewerContext {
            person_id: id.person_id,
            is_admin: id.is_admin,
            blocked_person_ids,
            blocked_instance_ids,
            enabled_language_ids,
            show_nsfw: id.show_nsfw,
            show_bot_accounts: id.show_bot_accounts,
            show_read_posts: id.show_read_posts,
        }),
    }
}

impl ViewerContext {
    /// This viewer has blocked the given person.
    pub open spec fn spec_blocks_person(self, p: PersonId) -> bool {
        self.blocked_person_ids@.contains(p)
    }

    /// This viewer has blocked the given instance.
    pub open spec fn spec_blocks_instance(self, i: InstanceId) -> bool {
        self.blocked_instance_ids@.contains(i)
    }

    /// This viewer has the given language enabled; an empty list
    /// enables every language.
    pub open spec fn spec_language_enabled(self, l: LanguageId) -> bool {
        self.enabled_language_ids@.len() == 0 || self.enabled_language_ids@.contains(l)
    }

    /// Membership test for the blocked-person list.
    pub fn blocks_person(&self, p: PersonId) -> (r: bool)
        ensures
            r == self.spec_blocks_person(p),
    {
        contains_person(&self.blocked_person_ids, p)
    }

    /// Membership test for the blocked-instance list.
    pub fn blocks_instance(&self, i: InstanceId) -> (r: bool)
        ensures
            r == self.spec_blocks_instance(i),
    {
        let n = self.blocked_instance_ids.len();
        let mut k: usize = 0;
        while k < n
            invariant
                k <= n,
                n == self.blocked_instance_ids@.len(),
                forall|j: int| 0 <= j < k ==> self.blocked_instance_ids@[j] != i,
            decreases n - k,
        {
            if self.blocked_instance_ids[k].0 == i.0 {
                return true;
            }
            k += 1;
        }
        false
    }

    /// Membership test for the enabled-language list, with the empty
    /// list meaning every language.
    pub fn language_enabled(&self, l: LanguageId) -> (r: bool)
        ensures
            r == self.spec_language_enabled(l),
    {
        if self.enabled_language_ids.len() == 0 {
            return true;
        }
        let n = self.enabled_language_ids.len();
        let mut k: usize = 0;
        while k < n
            invariant
                k <= n,
                n == self.enabled_language_ids@.len(),
                forall|j: int| 0 <= j < k ==> self.enabled_language_ids@[j] != l,
            decreases n - k,
        {
            if self.enabled_language_ids[k].0 == l.0 {
                return true;
            }
            k += 1;
        }
        false
    }
}

/// Membership test for a list of person ids.
fn contains_person(v: &Vec<PersonId>, p: PersonId) -> (r: bool)
    ensures
        r == v@.contains(p),
{
    let n = v.len();
    let mut k: usize = 0;
    while k < n
        invariant
            k <= n,
            n == v@.len(),
            forall|j: int| 0 <= j < k ==> v@[j] != p,
        decreases n - k,
    {
        if v[k].0 == p.0 {
            return true;
        }
        k += 1;
    }
    false
}

} // verus!

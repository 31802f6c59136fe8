//! Role-based authorization.
//!
//! A pure policy: the caller's user record is looked up under the resolved
//! caller identity, and its role must equal the role the command requires.
//! A caller without a user record is never authorized.

use vstd::prelude::*;

verus! {

use crate::state::UserRole;
use crate::store::State;
use crate::store::StateView;

/// The role the store knows the caller under, if any.
pub open spec fn caller_role(s: StateView, caller: Seq<char>) -> Option<UserRole> {
    if s.users.contains_key(caller) {
        Some(s.users[caller].role)
    } else {
        None
    }
}

/// Whether a caller holding `role` may run a command that requires
/// `required`. Roles are mutually exclusive, so this is exact equality;
/// an absent record denies.
pub open spec fn is_authorized(role: Option<UserRole>, required: UserRole) -> bool {
    role == Some(required)
}

impl State {
    /// Decides the authorization policy for one caller and one required
    /// role.
    pub fn caller_has_role(&self, caller: &str, required: UserRole) -> (r: bool)
        requires
            self.wf(),
        ensures
            r == is_authorized(caller_role(self@, caller@), required),
    {
        match self.get_user(caller) {
            Some(u) => u.role == required,
            None => false,
        }
    }
}

} // verus!

//! Authorization policies: which authentication results a resource admits.
use vstd::prelude::*;

use crate::auth_control::AuthResult;

verus! {

/// A per-resource rule that decides, from how a request authenticated,
/// whether it may reach the resource. Implement it to add a policy.
pub trait UserControlPolicy {
    /// Whether the policy admits a request whose identity is `identity`
    /// (`None` for an anonymous request, the username otherwise).
    spec fn admits(identity: Option<Seq<char>>) -> bool;

    /// The policy's name.
    fn display() -> &'static str;

    /// Whether the policy admits a request that authenticated as `auth_result`.
    fn allows(auth_result: &AuthResult) -> (r: bool)
        ensures
            r == Self::admits(auth_result@),
    ;
}

/// Admits every request, anonymous or not.
#[derive(Copy, Clone, PartialEq, Eq, Hash, Debug)]
pub struct Anyone;

impl UserControlPolicy for Anyone {
    open spec fn admits(identity: Option<Seq<char>>) -> bool {
        true
    }

    fn display() -> &'static str {
        "Anyone"
    }

    fn allows(_auth_result: &AuthResult) -> (r: bool) {
        true
    }
}

/// Admits any request with a verified identity, and no anonymous one.
#[derive(Copy, Clone, PartialEq, Eq, Hash, Debug)]
pub struct AnyLoggedUser;

impl UserControlPolicy for AnyLoggedUser {
    open spec fn admits(identity: Option<Seq<char>>) -> bool {
        identity is Some
    }

    fn display() -> &'static str {
        "AnyLoggedUser"
    }

    fn allows(auth_result: &AuthResult) -> (r: bool) {
        match auth_result {
            AuthResult::Anonymous => false,
            AuthResult::LoggedUser { .. } => true,
        }
    }
}

} // verus!

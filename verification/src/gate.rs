//! The authorization gate: what a request may do, from the token it carries
//! and the user records.

use crate::credentials::{first_by_id, id_is, CredentialStore};
use crate::errors::AuthorizationFailure;
use crate::models::{Privilege, User, UserView};
use crate::session::{bound_user, Token};
use vstd::prelude::*;

verus! {

/// What a request is capable of.
#[derive(Clone, Copy, Debug, PartialEq, Eq, Structural)]
pub enum Capability {
    /// The token resolves to a user of the administrator tier.
    Administrator,
    /// The token resolves to a user of the ordinary tier.
    Standard,
    /// There is no token, or it resolves to no user.
    Unauthenticated,
}

/// The least capability that a route asks for.
#[derive(Clone, Copy, Debug, PartialEq, Eq, Structural)]
pub enum Requirement {
    /// Only administrators.
    Administrator,
    /// Any user with a valid session.
    AnyAuthenticated,
    /// Anyone.
    Public,
}

/// The user that a token resolves to: the first record with the identifier
/// the token is bound to.
pub open spec fn resolved_user(token: Option<int>, users: Seq<UserView>) -> Option<UserView> {
    match token {
        Some(id) => first_by_id(users, id),
        None => None,
    }
}

/// The capability of a user record, by its privilege tier.
pub open spec fn capability_of(user: UserView) -> Capability {
    match Privilege::spec_of_code(user.privilege) {
        Privilege::Administrator => Capability::Administrator,
        Privilege::User => Capability::Standard,
    }
}

/// The capability of a request: that of the user its token resolves to, and
/// `Unauthenticated` when there is no token or no such user.
pub open spec fn capability(token: Option<int>, users: Seq<UserView>) -> Capability {
    match resolved_user(token, users) {
        Some(user) => capability_of(user),
        None => Capability::Unauthenticated,
    }
}

/// Whether a capability is at least what a route asks for.
pub open spec fn meets(capability: Capability, requirement: Requirement) -> bool {
    match requirement {
        Requirement::Public => true,
        Requirement::AnyAuthenticated => capability != Capability::Unauthenticated,
        Requirement::Administrator => capability == Capability::Administrator,
    }
}

/// Resolves session tokens to identities and capabilities, and checks them
/// against what a route asks for. It changes nothing.
pub struct AuthorizationGate;

impl AuthorizationGate {
    /// The user that the token resolves to, if there is a token and a user
    /// for it.
    pub fn resolve_user<'a>(token: Option<Token>, store: &'a CredentialStore) -> (found: Option<
        &'a User,
    >)
        ensures
            match found {
                Some(user) => resolved_user(bound_user(token), store@) == Some(user@),
                None => resolved_user(bound_user(token), store@) is None,
            },
            found matches Some(user) ==> bound_user(token) == Some(user@.id),
    {
        proof {
            lemma_resolved_user_is_bound(bound_user(token), store@);
        }
        match token {
            Some(token) => store.find_by_id(token.user_id()),
            None => None,
        }
    }

    /// The capability of a request that carries `token`.
    pub fn resolve(token: Option<Token>, store: &CredentialStore) -> (resolved: Capability)
        ensures
            resolved == capability(bound_user(token), store@),
    {
        match Self::resolve_user(token, store) {
            Some(user) => match Privilege::of_code(user.privilege) {
                Privilege::Administrator => Capability::Administrator,
                Privilege::User => Capability::Standard,
            },
            None => Capability::Unauthenticated,
        }
    }

    /// Passes a capability that meets the requirement, and fails any other.
    pub fn check(resolved: Capability, requirement: Requirement) -> (verdict: Result<
        (),
        AuthorizationFailure,
    >)
        ensures
            verdict is Ok <==> meets(resolved, requirement),
    {
        let passes = match requirement {
            Requirement::Public => true,
            Requirement::AnyAuthenticated => resolved != Capability::Unauthenticated,
            Requirement::Administrator => resolved == Capability::Administrator,
        };
        if passes {
            Ok(())
        } else {
            Err(AuthorizationFailure)
        }
    }

    /// Resolves the capability of a request and checks it against the
    /// requirement of the route.
    pub fn authorize(token: Option<Token>, store: &CredentialStore, requirement: Requirement) -> (verdict:
        Result<Capability, AuthorizationFailure>)
        ensures
            match verdict {
                Ok(resolved) => resolved == capability(bound_user(token), store@) && meets(
                    resolved,
                    requirement,
                ),
                Err(_) => !meets(capability(bound_user(token), store@), requirement),
            },
    {
        let resolved = Self::resolve(token, store);
        match Self::check(resolved, requirement) {
            Ok(_) => Ok(resolved),
            Err(failure) => Err(failure),
        }
    }
}

/// A token resolves only to a user with the identifier it is bound to, and
/// a request is `Unauthenticated` exactly when its token resolves to no
/// user.
pub proof fn lemma_resolved_user_is_bound(token: Option<int>, users: Seq<UserView>)
    ensures
        resolved_user(token, users) matches Some(user) ==> token == Some(user.id),
        resolved_user(token, users) is None <==> capability(token, users)
            == Capability::Unauthenticated,
{
    if let Some(id) = token {
        if users.filter(id_is(id)).len() > 0 {
            users.lemma_filter_pred(id_is(id), 0);
        }
    }
}

/// A request without a token is `Unauthenticated`, whatever the store
/// holds.
pub proof fn lemma_no_token_no_capability(users: Seq<UserView>)
    ensures
        capability(None, users) == Capability::Unauthenticated,
{
}

/// The requirements are ordered: what an administrator route admits, a
/// route for any authenticated user admits too, and a public route admits
/// everything.
pub proof fn lemma_requirements_are_ordered(resolved: Capability)
    ensures
        meets(resolved, Requirement::Administrator) ==> meets(
            resolved,
            Requirement::AnyAuthenticated,
        ),
        meets(resolved, Requirement::AnyAuthenticated) ==> meets(resolved, Requirement::Public),
        meets(resolved, Requirement::Public),
        !meets(Capability::Unauthenticated, Requirement::AnyAuthenticated),
        !meets(Capability::Standard, Requirement::Administrator),
{
}

} // verus!

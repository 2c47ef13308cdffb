//! The failures the core can report, and how each is classified.

use vstd::prelude::*;
use vstd::std_specs::convert::FromSpecImpl;

verus! {

/// Why a login or an account creation was refused.
#[derive(Clone, Copy, Debug, PartialEq, Eq, Structural)]
pub enum CredentialError {
    /// No user carries the requested username.
    UserNotFound,
    /// The stored hash does not match the candidate password.
    IncorrectPassword,
    /// The stored hash is not a well-formed hash blob.
    CorruptHash,
    /// The username is already in use.
    UsernameTaken,
    /// The hashing primitive could not be initialised or did not complete.
    HashingFailure,
}

/// The resolved capability is below what the route asks for.
#[derive(Clone, Copy, Debug, PartialEq, Eq, Structural)]
pub struct AuthorizationFailure;

/// Why a resource could not be used.
#[derive(Clone, Copy, Debug, PartialEq, Eq, Structural)]
pub enum ResourceError {
    /// No such label set exists.
    ResourceNotFound,
}

/// Every failure that reaches the boundary.
#[derive(Clone, Copy, Debug, PartialEq, Eq, Structural)]
pub enum CoreError {
    /// A login or an account creation was refused.
    Credential(CredentialError),
    /// The capability check failed.
    Authorization(AuthorizationFailure),
    /// A resource could not be used.
    Resource(ResourceError),
    /// The uniqueness of grants was found broken.
    InvariantViolation,
    /// A record that was just stored could not be read back.
    PostInsertLookupFailure,
    /// A call to the store failed.
    PersistenceFailure,
}

/// Who has to act on a failure.
#[derive(Clone, Copy, Debug, PartialEq, Eq, Structural)]
pub enum FailureClass {
    /// The client sent something that cannot be served: bad credentials, a
    /// name that is taken, an unknown resource, a missing capability.
    ClientMistake,
    /// The server's own state or machinery is at fault: a broken invariant,
    /// a corrupt record, a primitive that failed.
    ServerIntegrity,
}

impl CredentialError {
    /// The class of a credential failure.
    pub open spec fn spec_class(self) -> FailureClass {
        match self {
            CredentialError::UserNotFound => FailureClass::ClientMistake,
            CredentialError::IncorrectPassword => FailureClass::ClientMistake,
            CredentialError::UsernameTaken => FailureClass::ClientMistake,
            CredentialError::CorruptHash => FailureClass::ServerIntegrity,
            CredentialError::HashingFailure => FailureClass::ServerIntegrity,
        }
    }

    /// The class of a credential failure.
    pub fn class(self) -> (class: FailureClass)
        ensures
            class == self.spec_class(),
    {
        match self {
            CredentialError::UserNotFound => FailureClass::ClientMistake,
            CredentialError::IncorrectPassword => FailureClass::ClientMistake,
            CredentialError::UsernameTaken => FailureClass::ClientMistake,
            CredentialError::CorruptHash => FailureClass::ServerIntegrity,
            CredentialError::HashingFailure => FailureClass::ServerIntegrity,
        }
    }
}

impl CoreError {
    /// The class of a failure.
    pub open spec fn spec_class(self) -> FailureClass {
        match self {
            CoreError::Credential(e) => e.spec_class(),
            CoreError::Authorization(_) => FailureClass::ClientMistake,
            CoreError::Resource(_) => FailureClass::ClientMistake,
            CoreError::InvariantViolation => FailureClass::ServerIntegrity,
            CoreError::PostInsertLookupFailure => FailureClass::ServerIntegrity,
            CoreError::PersistenceFailure => FailureClass::ServerIntegrity,
        }
    }

    /// The class of a failure.
    pub fn class(self) -> (class: FailureClass)
        ensures
            class == self.spec_class(),
    {
        match self {
            CoreError::Credential(e) => e.class(),
            CoreError::Authorization(_) => FailureClass::ClientMistake,
            CoreError::Resource(_) => FailureClass::ClientMistake,
            CoreError::InvariantViolation => FailureClass::ServerIntegrity,
            CoreError::PostInsertLookupFailure => FailureClass::ServerIntegrity,
            CoreError::PersistenceFailure => FailureClass::ServerIntegrity,
        }
    }
}

impl From<CredentialError> for CoreError {
    fn from(error: CredentialError) -> (core: CoreError) {
        CoreError::Credential(error)
    }
}

impl FromSpecImpl<CredentialError> for CoreError {
    open spec fn obeys_from_spec() -> bool {
        true
    }

    open spec fn from_spec(error: CredentialError) -> CoreError {
        CoreError::Credential(error)
    }
}

impl From<AuthorizationFailure> for CoreError {
    fn from(failure: AuthorizationFailure) -> (core: CoreError) {
        CoreError::Authorization(failure)
    }
}

impl FromSpecImpl<AuthorizationFailure> for CoreError {
    open spec fn obeys_from_spec() -> bool {
        true
    }

    open spec fn from_spec(failure: AuthorizationFailure) -> CoreError {
        CoreError::Authorization(failure)
    }
}

impl From<ResourceError> for CoreError {
    fn from(error: ResourceError) -> (core: CoreError) {
        CoreError::Resource(error)
    }
}

impl FromSpecImpl<ResourceError> for CoreError {
    open spec fn obeys_from_spec() -> bool {
        true
    }

    open spec fn from_spec(error: ResourceError) -> CoreError {
        CoreError::Resource(error)
    }
}

} // verus!

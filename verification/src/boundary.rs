//! The fixed table from the outcomes of the core to the status that the
//! boundary reports, and the message that the client gets to see.

use crate::errors::{CoreError, CredentialError, FailureClass};
use crate::registry::{GrantOutcome, RevokeOutcome};
use vstd::prelude::*;

verus! {

/// The status that the boundary reports for a request.
#[derive(Clone, Copy, Debug, PartialEq, Eq, Structural)]
pub enum BoundaryStatus {
    /// The request was served.
    Success,
    /// The resource or the grant is absent.
    NotFound,
    /// The capability check failed.
    Unauthorized,
    /// The client's credentials or data were refused.
    Rejected,
    /// The server's own state or machinery is at fault.
    InternalError,
}

/// The status for a failure.
pub open spec fn status_of_error(error: CoreError) -> BoundaryStatus {
    match error {
        CoreError::Authorization(_) => BoundaryStatus::Unauthorized,
        CoreError::Resource(_) => BoundaryStatus::NotFound,
        _ => match error.spec_class() {
            FailureClass::ClientMistake => BoundaryStatus::Rejected,
            FailureClass::ServerIntegrity => BoundaryStatus::InternalError,
        },
    }
}

/// The status for the outcome of a grant. A grant that was there already is
/// a success.
pub open spec fn status_of_grant(outcome: GrantOutcome) -> BoundaryStatus {
    match outcome {
        GrantOutcome::Granted => BoundaryStatus::Success,
        GrantOutcome::AlreadyGranted => BoundaryStatus::Success,
        GrantOutcome::ResourceNotFound => BoundaryStatus::NotFound,
    }
}

/// The status for the outcome of a revocation. An absent grant is reported
/// as not found, and a broken invariant as the server's fault.
pub open spec fn status_of_revoke(outcome: RevokeOutcome) -> BoundaryStatus {
    match outcome {
        RevokeOutcome::Revoked => BoundaryStatus::Success,
        RevokeOutcome::NotGranted => BoundaryStatus::NotFound,
        RevokeOutcome::InvariantViolation => BoundaryStatus::InternalError,
    }
}

/// What the client is told about a failure. A failed login reads the same
/// whether the username or the password was wrong.
pub open spec fn public_message(error: CoreError) -> Seq<char> {
    match error {
        CoreError::Credential(CredentialError::UserNotFound) => "login failed"@,
        CoreError::Credential(CredentialError::IncorrectPassword) => "login failed"@,
        CoreError::Credential(CredentialError::UsernameTaken) => "username taken"@,
        CoreError::Authorization(_) => "unauthorized"@,
        CoreError::Resource(_) => "not found"@,
        _ => "internal error"@,
    }
}

impl BoundaryStatus {
    /// The status for a failure.
    pub fn for_error(error: CoreError) -> (status: BoundaryStatus)
        ensures
            status == status_of_error(error),
    {
        match error {
            CoreError::Authorization(_) => BoundaryStatus::Unauthorized,
            CoreError::Resource(_) => BoundaryStatus::NotFound,
            _ => match error.class() {
                FailureClass::ClientMistake => BoundaryStatus::Rejected,
                FailureClass::ServerIntegrity => BoundaryStatus::InternalError,
            },
        }
    }

    /// The status for the outcome of a grant.
    pub fn for_grant(outcome: GrantOutcome) -> (status: BoundaryStatus)
        ensures
            status == status_of_grant(outcome),
    {
        match outcome {
            GrantOutcome::Granted => BoundaryStatus::Success,
            GrantOutcome::AlreadyGranted => BoundaryStatus::Success,
            GrantOutcome::ResourceNotFound => BoundaryStatus::NotFound,
        }
    }

    /// The status for the outcome of a revocation.
    pub fn for_revoke(outcome: RevokeOutcome) -> (status: BoundaryStatus)
        ensures
            status == status_of_revoke(outcome),
    {
        match outcome {
            RevokeOutcome::Revoked => BoundaryStatus::Success,
            RevokeOutcome::NotGranted => BoundaryStatus::NotFound,
            RevokeOutcome::InvariantViolation => BoundaryStatus::InternalError,
        }
    }
}

/// What the client is told about a failure.
pub fn message_for(error: CoreError) -> (message: &'static str)
    ensures
        message@ == public_message(error),
{
    match error {
        CoreError::Credential(CredentialError::UserNotFound) => "login failed",
        CoreError::Credential(CredentialError::IncorrectPassword) => "login failed",
        CoreError::Credential(CredentialError::UsernameTaken) => "username taken",
        CoreError::Authorization(_) => "unauthorized",
        CoreError::Resource(_) => "not found",
        _ => "internal error",
    }
}

/// A failed login tells the client the same thing and reports the same
/// status whether the username is unknown or the password is wrong.
pub proof fn lemma_login_failures_look_alike()
    ensures
        public_message(CoreError::Credential(CredentialError::UserNotFound)) == public_message(
            CoreError::Credential(CredentialError::IncorrectPassword),
        ),
        status_of_error(CoreError::Credential(CredentialError::UserNotFound)) == status_of_error(
            CoreError::Credential(CredentialError::IncorrectPassword),
        ),
{
}

/// The status tells the two classes of failure apart: only a failure of the
/// server's own state or machinery is reported as an internal error.
pub proof fn lemma_status_separates_classes(error: CoreError)
    ensures
        status_of_error(error) == BoundaryStatus::InternalError <==> error.spec_class()
            == FailureClass::ServerIntegrity,
        status_of_error(error) != BoundaryStatus::Success,
{
}

} // verus!

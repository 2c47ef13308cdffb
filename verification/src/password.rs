//! Salted, memory-hard password hashing and verification.

use crate::errors::CredentialError;
use sodiumoxide::crypto::pwhash::argon2id13;
use sodiumoxide::crypto::pwhash::argon2id13::HashedPassword;
use vstd::prelude::*;
use vstd::slice::slice_to_vec;

verus! {

/// Number of bytes in a hash blob.
pub const HASH_BLOB_LEN: usize = 128;

/// Number of bytes in the text that every hash blob starts with.
pub const BLOB_PREFIX_LEN: usize = 10;

/// The text that every hash blob starts with: `$argon2id$`.
pub const BLOB_PREFIX: [u8; 10] = [36, 97, 114, 103, 111, 110, 50, 105, 100, 36];

/// Whether `blob` starts with the text that every hash blob starts with.
pub open spec fn has_blob_prefix(blob: Seq<u8>) -> bool {
    &&& blob.len() >= BLOB_PREFIX_LEN
    &&& forall|i: int| 0 <= i < BLOB_PREFIX_LEN ==> #[trigger] blob[i] == BLOB_PREFIX@[i]
}

/// Whether `blob` can be a hash blob at all: it has the length of one,
/// starts like one, and its text ends within it, at a zero byte.
pub open spec fn well_formed(blob: Seq<u8>) -> bool {
    &&& blob.len() == HASH_BLOB_LEN
    &&& has_blob_prefix(blob)
    &&& blob.contains(0u8)
}

/// `argon2id13::HashedPassword`, taken as an opaque value.
#[verifier::external_type_specification]
#[verifier::external_body]
pub struct ExHashedPassword(HashedPassword);

/// The bytes held by a `HashedPassword`.
pub uninterp spec fn blob_bytes(blob: HashedPassword) -> Seq<u8>;

/// The answer of `argon2id13::pwhash_verify` for the bytes of a stored
/// verification string and a candidate password.
pub uninterp spec fn argon2id_accepts(blob: Seq<u8>, password: Seq<u8>) -> bool;

/// Calls `sodiumoxide::init`. Whether it succeeds is decided by the
/// machine, so nothing is claimed about the answer.
#[verifier::external_body]
fn sodium_ready() -> (ready: bool) {
    sodiumoxide::init().is_ok()
}

/// Calls `argon2id13::pwhash` with the interactive limits. The salt is
/// random and the call may fail, so the contract only claims what the
/// crate documents of every blob it hands out: it has 128 bytes, starts
/// with `STRPREFIX`, is zero-terminated, and is a verification string for
/// the password it was made from, so `pwhash_verify` accepts the pair.
#[verifier::external_body]
fn mint_blob(password: &[u8]) -> (minted: Result<HashedPassword, ()>)
    ensures
        minted matches Ok(blob) ==> well_formed(blob_bytes(blob)) && argon2id_accepts(
            blob_bytes(blob),
            password@,
        ),
{
    argon2id13::pwhash(
        password,
        argon2id13::OPSLIMIT_INTERACTIVE,
        argon2id13::MEMLIMIT_INTERACTIVE,
    )
}

/// Calls `HashedPassword::from_slice`, which copies the bytes when there
/// are exactly 128 of them and answers `None` for any other length.
#[verifier::external_body]
fn parse_blob(stored: &[u8]) -> (parsed: Option<HashedPassword>)
    ensures
        parsed is Some <==> stored@.len() == 128,
        parsed matches Some(blob) ==> blob_bytes(blob) == stored@,
{
    HashedPassword::from_slice(stored)
}

/// Calls `argon2id13::pwhash_verify`; its answer is named by
/// `argon2id_accepts`. The blob is read as a zero-terminated text, so one
/// without a zero byte is not handed over.
#[verifier::external_body]
fn blob_accepts(blob: &HashedPassword, candidate: &[u8]) -> (accepted: bool)
    requires
        blob_bytes(*blob).contains(0u8),
    ensures
        accepted == argon2id_accepts(blob_bytes(*blob), candidate@),
{
    argon2id13::pwhash_verify(blob, candidate)
}

/// Calls `HashedPassword::as_ref`, which lends the 128 bytes of the blob.
#[verifier::external_body]
fn blob_as_slice(blob: &HashedPassword) -> (bytes: &[u8])
    ensures
        bytes@ == blob_bytes(*blob),
        bytes@.len() == 128,
{
    blob.as_ref()
}

/// What `verify` answers: a hasher that is not ready reports
/// `HashingFailure`, a stored blob that is not well formed is
/// `CorruptHash`, and otherwise the answer is whether the blob accepts the
/// candidate.
pub open spec fn verify_outcome(ready: bool, stored: Seq<u8>, candidate: Seq<u8>) -> Result<
    bool,
    CredentialError,
> {
    if !ready {
        Err(CredentialError::HashingFailure)
    } else if !well_formed(stored) {
        Err(CredentialError::CorruptHash)
    } else {
        Ok(argon2id_accepts(stored, candidate))
    }
}

/// Whether `bytes` starts with the text that every hash blob starts with.
pub fn starts_like_blob(bytes: &[u8]) -> (starts: bool)
    ensures
        starts == has_blob_prefix(bytes@),
{
    if bytes.len() < BLOB_PREFIX_LEN {
        return false;
    }
    let mut i: usize = 0;
    while i < BLOB_PREFIX_LEN
        invariant
            i <= BLOB_PREFIX_LEN <= bytes.len(),
            forall|j: int| 0 <= j < i ==> #[trigger] bytes@[j] == BLOB_PREFIX@[j],
        decreases BLOB_PREFIX_LEN - i,
    {
        if bytes[i] != BLOB_PREFIX[i] {
            return false;
        }
        i += 1;
    }
    true
}

/// Whether `bytes` holds a zero byte.
pub fn is_terminated(bytes: &[u8]) -> (terminated: bool)
    ensures
        terminated == bytes@.contains(0u8),
{
    let mut i: usize = 0;
    while i < bytes.len()
        invariant
            i <= bytes.len(),
            forall|j: int| 0 <= j < i ==> #[trigger] bytes@[j] != 0u8,
        decreases bytes.len() - i,
    {
        if bytes[i] == 0 {
            return true;
        }
        i += 1;
    }
    false
}

/// Whether `bytes` can be a hash blob at all.
pub fn is_well_formed(bytes: &[u8]) -> (well: bool)
    ensures
        well == well_formed(bytes@),
{
    bytes.len() == HASH_BLOB_LEN && starts_like_blob(bytes) && is_terminated(bytes)
}

/// One-way salted hashing and verification of passwords.
pub struct PasswordHasher {
    ready: bool,
}

impl PasswordHasher {
    /// Whether the hashing primitive was initialised for this hasher.
    pub closed spec fn ready(&self) -> bool {
        self.ready
    }

    /// Initialises the hashing primitive. The hasher is ready when the
    /// machine allowed that, which nothing here can foretell.
    pub fn new() -> (hasher: PasswordHasher) {
        Self::after_init(sodium_ready())
    }

    /// A hasher whose primitive is not initialised: every operation on it
    /// reports `HashingFailure`.
    pub fn unavailable() -> (hasher: PasswordHasher)
        ensures
            !hasher.ready(),
    {
        PasswordHasher { ready: false }
    }

    /// The hasher for an initialisation that ended as `initialised` says:
    /// it is ready exactly when the primitive was initialised.
    fn after_init(initialised: bool) -> (hasher: PasswordHasher)
        ensures
            hasher.ready() == initialised,
    {
        PasswordHasher { ready: initialised }
    }

    /// Whether the hashing primitive was initialised.
    pub fn is_ready(&self) -> (ready: bool)
        ensures
            ready == self.ready(),
    {
        self.ready
    }

    /// Produces a self-describing hash blob for `password`: its parameters,
    /// a fresh salt and the digest in one. The primitive may fail; every
    /// blob that is handed out is well formed and verifies against the
    /// password it was made from.
    pub fn hash(&self, password: &[u8]) -> (outcome: Result<Vec<u8>, CredentialError>)
        ensures
            !self.ready() ==> outcome is Err,
            outcome matches Ok(blob) ==> well_formed(blob@) && argon2id_accepts(blob@, password@),
            outcome matches Ok(blob) ==> verify_outcome(true, blob@, password@) == Ok::<
                bool,
                CredentialError,
            >(true),
            outcome matches Err(e) ==> e == CredentialError::HashingFailure,
    {
        if !self.ready {
            return Err(CredentialError::HashingFailure);
        }
        match mint_blob(password) {
            Ok(blob) => Ok(slice_to_vec(blob_as_slice(&blob))),
            Err(_) => Err(CredentialError::HashingFailure),
        }
    }

    /// Checks `candidate` against the stored hash blob. A mismatch is the
    /// answer `false`; a stored blob that cannot be a hash blob is the
    /// failure `CorruptHash`.
    pub fn verify(&self, stored: &[u8], candidate: &[u8]) -> (outcome: Result<
        bool,
        CredentialError,
    >)
        ensures
            outcome == verify_outcome(self.ready(), stored@, candidate@),
    {
        if !self.ready {
            return Err(CredentialError::HashingFailure);
        }
        let blob = match parse_blob(stored) {
            Some(blob) => blob,
            None => {
                return Err(CredentialError::CorruptHash);
            },
        };
        if !is_well_formed(stored) {
            return Err(CredentialError::CorruptHash);
        }
        Ok(blob_accepts(&blob, candidate))
    }
}

} // verus!

//! Session and resource authorization: credential hashing and verification,
//! the session-token lifecycle, privilege checks, and the ownership registry
//! that joins users to label sets.
//!
//! - [`password`] hashes and verifies passwords with Argon2id.
//! - [`credentials`] holds the user records and assigns their identifiers.
//! - [`session`] issues, rotates and revokes the token of a client agent;
//!   [`cookie`] gives the token its text in the session cookie.
//! - [`gate`] resolves a token to a capability and checks it against what a
//!   route asks for.
//! - [`catalog`] and [`registry`] resolve label sets and record which user
//!   has been granted which.
//! - [`users`] offers the operations of the boundary on top of these, and
//!   [`boundary`] the status and message for each outcome.
//! - [`models`] and [`errors`] hold the records and the failures;
//!   [`matching`] the reasoning about rows that satisfy a predicate.

pub mod boundary;
pub mod catalog;
pub mod cookie;
pub mod credentials;
pub mod errors;
pub mod gate;
pub mod matching;
pub mod models;
pub mod password;
pub mod registry;
pub mod session;
pub mod users;

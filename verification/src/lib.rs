//! Verified data and identity layer for a local, single-writer messaging and
//! inventory application.
//!
//! The library models the store itself: user credentials and identity,
//! per-owner contact edges, canonical 1:1 chat threads with an append-only
//! message ledger, and per-owner inventory records with derived profit and
//! aggregate summaries. Every operation carries a contract over the
//! mathematical view of the store; persistence and presentation live outside
//! this crate and talk to it through plain values.

use vstd::prelude::*;

pub mod auth;
pub mod chats;
pub mod clock;
pub mod contacts;
pub mod crypto;
pub mod ident;
pub mod integrity;
pub mod inventory;
pub mod laws;
pub mod models;
pub mod screens;
pub mod store;
pub mod text;

verus! {

/// The error cases a store operation can report.
///
/// Each operation's contract states exactly which of these it returns and on
/// which inputs.
#[derive(Clone, Copy, Debug, PartialEq, Eq, Structural)]
pub enum StoreError {
    /// A lookup by username found no user.
    UserNotFound,
    /// The username exists but the password does not verify.
    WrongPassword,
    /// The username is already registered.
    UsernameTaken,
    /// The password hashing primitive reported a failure.
    HashingFailed,
    /// Repeated public-id samples all collided with existing users.
    PublicIdCollision,
    /// A lookup by id or key found no record.
    NotFound,
    /// A required field was empty or a value was out of range.
    Validation,
    /// A contact edge from an owner to itself was requested.
    SelfReference,
    /// A chat between a user and itself was requested.
    SameUser,
    /// An insert would duplicate an (owner, code) product key.
    DuplicateCode,
    /// The id space of a table is exhausted.
    Storage,
}

/// The failure classes of the store: lookup misses, uniqueness violations,
/// rejected input, bad credentials, and engine-level trouble.
#[derive(Clone, Copy, Debug, PartialEq, Eq, Structural)]
pub enum ErrorKind {
    NotFound,
    Conflict,
    Validation,
    AuthFailure,
    StorageFailure,
}

impl StoreError {
    /// The failure class of each error case.
    pub open spec fn kind_spec(self) -> ErrorKind {
        match self {
            StoreError::UserNotFound => ErrorKind::AuthFailure,
            StoreError::WrongPassword => ErrorKind::AuthFailure,
            StoreError::UsernameTaken => ErrorKind::Conflict,
            StoreError::HashingFailed => ErrorKind::StorageFailure,
            StoreError::PublicIdCollision => ErrorKind::Conflict,
            StoreError::NotFound => ErrorKind::NotFound,
            StoreError::Validation => ErrorKind::Validation,
            StoreError::SelfReference => ErrorKind::Validation,
            StoreError::SameUser => ErrorKind::Validation,
            StoreError::DuplicateCode => ErrorKind::Conflict,
            StoreError::Storage => ErrorKind::StorageFailure,
        }
    }

    /// Classifies this error.
    pub fn kind(&self) -> (r: ErrorKind)
        ensures
            r == self.kind_spec(),
    {
        match self {
            StoreError::UserNotFound => ErrorKind::AuthFailure,
            StoreError::WrongPassword => ErrorKind::AuthFailure,
            StoreError::UsernameTaken => ErrorKind::Conflict,
            StoreError::HashingFailed => ErrorKind::StorageFailure,
            StoreError::PublicIdCollision => ErrorKind::Conflict,
            StoreError::NotFound => ErrorKind::NotFound,
            StoreError::Validation => ErrorKind::Validation,
            StoreError::SelfReference => ErrorKind::Validation,
            StoreError::SameUser => ErrorKind::Validation,
            StoreError::DuplicateCode => ErrorKind::Conflict,
            StoreError::Storage => ErrorKind::StorageFailure,
        }
    }
}

} // verus!

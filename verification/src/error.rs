//! The kinds of refusal.

use crate::table_models::{Action, Table};
use vstd::prelude::*;

verus! {

/// What the store was asked to do when it failed.
#[derive(Debug, Clone, Copy, PartialEq, Eq, Structural)]
pub enum Operation {
    Read,
    Insert,
    Update,
    Delete,
}

impl Operation {
    /// The operation that carries out a command.
    pub open spec fn of(a: Action) -> Operation {
        match a {
            Action::Insert => Operation::Insert,
            Action::Update => Operation::Update,
            Action::Delete => Operation::Delete,
        }
    }

    /// The operation that carries out a command.
    pub fn writing(a: Action) -> (r: Operation)
        ensures
            r == Operation::of(a),
    {
        match a {
            Action::Insert => Operation::Insert,
            Action::Update => Operation::Update,
            Action::Delete => Operation::Delete,
        }
    }
}

/// Why an operation was refused.
#[derive(Debug, Clone, Copy, PartialEq, Eq, Structural)]
pub enum ErrorKind {
    /// The entity or row is absent.
    NotFound,
    /// A uniqueness rule would be broken, such as a second user with one email.
    Conflict,
    /// No session is bound where one is required.
    Unauthenticated,
    /// A session is bound, but its role or identity does not allow the operation.
    Forbidden,
    /// A field is missing or malformed.
    ValidationFailed,
    /// A filter was handed to a query on another entity kind.
    InvalidFilter,
    /// The store could not carry out a read or a write. The entity kind and
    /// the operation say where it failed; what the backing store itself had
    /// to say is not handed on.
    StorageFailure { table: Table, operation: Operation },
    /// The account is suspended and may not sign in.
    Suspended,
    /// The account must change its password before it may sign in.
    MustChangePassword,
    /// The secret does not verify against the stored hash.
    InvalidCredential,
}

impl ErrorKind {
    /// A short sentence for the caller, one per kind.
    pub fn message(&self) -> (r: &'static str)
        ensures
            r@ == self.message_text(),
    {
        match self {
            ErrorKind::NotFound => "Not found.",
            ErrorKind::Conflict => "A record with this key already exists.",
            ErrorKind::Unauthenticated => "Must be signed in.",
            ErrorKind::Forbidden => "You do not have permission to do this.",
            ErrorKind::ValidationFailed => "A field is missing or malformed.",
            ErrorKind::InvalidFilter => "Invalid filter for table.",
            ErrorKind::StorageFailure { .. } => "The store could not complete the request.",
            ErrorKind::Suspended => "User is suspended.",
            ErrorKind::MustChangePassword => "User must change password.",
            ErrorKind::InvalidCredential => "Invalid username or password.",
        }
    }

    /// The sentence of each kind.
    pub open spec fn message_text(&self) -> Seq<char> {
        match self {
            ErrorKind::NotFound => "Not found."@,
            ErrorKind::Conflict => "A record with this key already exists."@,
            ErrorKind::Unauthenticated => "Must be signed in."@,
            ErrorKind::Forbidden => "You do not have permission to do this."@,
            ErrorKind::ValidationFailed => "A field is missing or malformed."@,
            ErrorKind::InvalidFilter => "Invalid filter for table."@,
            ErrorKind::StorageFailure { .. } => "The store could not complete the request."@,
            ErrorKind::Suspended => "User is suspended."@,
            ErrorKind::MustChangePassword => "User must change password."@,
            ErrorKind::InvalidCredential => "Invalid username or password."@,
        }
    }
}

} // verus!

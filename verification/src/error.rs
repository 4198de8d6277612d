//! The error vocabulary of the record store, and how storage-engine
//! failures are mapped into it.

use vstd::prelude::*;
use vstd::string::StringExecFns;

use crate::text::str_eq;

verus! {

/// What can go wrong in the persistence and validation layer.
#[derive(Debug)]
pub enum DbError {
    /// The candidate name fails the validation rules; holds the reason.
    InvalidName(String),
    /// An application with this name already exists; holds the name.
    DuplicateName(String),
    /// Reserved for lookups that fail rather than return an absence value;
    /// no current operation produces it.
    NotFound(String),
    /// An underlying storage failure; holds the engine's description.
    DatabaseError(String),
    /// A programmer-error condition that should not occur in normal
    /// operation; holds a description.
    Internal(String),
}

/// The human-readable text of an error.
pub open spec fn spec_message(e: DbError) -> Seq<char> {
    match e {
        DbError::InvalidName(m) => "Invalid name: "@ + m@,
        DbError::DuplicateName(m) => "Name '"@ + m@ + "' already exists"@,
        DbError::NotFound(m) => "Not found: "@ + m@,
        DbError::DatabaseError(m) => "Database error: "@ + m@,
        DbError::Internal(m) => "Internal error: "@ + m@,
    }
}

impl DbError {
    /// Renders the error as human-readable text.
    pub fn message(&self) -> (r: String)
        ensures
            r@ == spec_message(*self),
    {
        match self {
            DbError::InvalidName(m) => {
                let mut s = String::from_str("Invalid name: ");
                s.append(m.as_str());
                s
            },
            DbError::DuplicateName(m) => {
                let mut s = String::from_str("Name '");
                s.append(m.as_str());
                s.append("' already exists");
                s
            },
            DbError::NotFound(m) => {
                let mut s = String::from_str("Not found: ");
                s.append(m.as_str());
                s
            },
            DbError::DatabaseError(m) => {
                let mut s = String::from_str("Database error: ");
                s.append(m.as_str());
                s
            },
            DbError::Internal(m) => {
                let mut s = String::from_str("Internal error: ");
                s.append(m.as_str());
                s
            },
        }
    }
}

/// The storage engine's error code for a violated unique constraint.
pub open spec fn unique_violation_code() -> Seq<char> {
    "2067"@
}

/// Maps a storage failure reported for an insert to the library's error:
/// the engine's unique-constraint violation code means the name is already
/// taken; any other failure is a plain storage error carrying the engine's
/// description.
pub fn classify_insert_error(code: Option<&str>, name: &str, description: String) -> (r: DbError)
    ensures
        match code {
            Some(c) => {
                if c@ == unique_violation_code() {
                    r matches DbError::DuplicateName(m) && m@ == name@
                } else {
                    r matches DbError::DatabaseError(m) && m@ == description@
                }
            },
            None => r matches DbError::DatabaseError(m) && m@ == description@,
        },
{
    match code {
        Some(c) => {
            if str_eq(c, "2067") {
                DbError::DuplicateName(String::from_str(name))
            } else {
                DbError::DatabaseError(description)
            }
        },
        None => DbError::DatabaseError(description),
    }
}

} // verus!

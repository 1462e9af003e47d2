//! Error values reported by the store and by the schema.

use vstd::prelude::*;

verus! {

/// What went wrong.
#[derive(Debug, Clone, Copy, PartialEq, Eq, Structural)]
pub enum DbErrorType {
    /// A schema operation named a table that is not registered.
    TableNotFound,
    /// A backend failed in a way that has no kind of its own.
    Misc,
    /// Reading, writing, seeking, opening or creating a file failed.
    IoFailure,
    /// Fewer bytes were available than a file header needs.
    MalformedHeader,
}

/// An error of the store, carrying its kind.
#[derive(Debug, Clone, Copy, PartialEq, Eq, Structural)]
pub struct DbError {
    error_type: DbErrorType,
}

impl DbError {
    /// The kind of this error, for use in contracts.
    pub closed spec fn kind(&self) -> DbErrorType {
        self.error_type
    }

    /// Makes an error of the given kind.
    pub fn new(error_type: DbErrorType) -> (err: DbError)
        ensures
            err.kind() == error_type,
    {
        DbError { error_type }
    }

    /// Returns the kind of this error.
    pub fn error_type(&self) -> (kind: DbErrorType)
        ensures
            kind == self.kind(),
    {
        self.error_type
    }

    /// The text shown for this error: the word `Error:` followed by the
    /// name of the kind in double quotes.
    pub open spec fn text(&self) -> Seq<char> {
        match self.kind() {
            DbErrorType::TableNotFound => "Error:\"TableNotFound\""@,
            DbErrorType::Misc => "Error:\"Misc\""@,
            DbErrorType::IoFailure => "Error:\"IoFailure\""@,
            DbErrorType::MalformedHeader => "Error:\"MalformedHeader\""@,
        }
    }

    /// Renders this error as text.
    pub fn to_string(&self) -> (s: String)
        ensures
            s@ == self.text(),
    {
        match self.error_type {
            DbErrorType::TableNotFound => "Error:\"TableNotFound\"".to_owned(),
            DbErrorType::Misc => "Error:\"Misc\"".to_owned(),
            DbErrorType::IoFailure => "Error:\"IoFailure\"".to_owned(),
            DbErrorType::MalformedHeader => "Error:\"MalformedHeader\"".to_owned(),
        }
    }
}

} // verus!

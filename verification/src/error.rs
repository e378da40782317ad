//! The error type of the library.

use vstd::prelude::*;

verus! {

/// What went wrong, with a message for the reader.
#[derive(Debug, Clone, PartialEq, Eq)]
pub enum SolxError {
    NotFound(String),
    Invalid(String),
    Exec(String),
    Db(String),
    Other(String),
}

/// An error as mathematics.
#[verifier::ext_equal]
pub enum Failure {
    NotFound(Seq<char>),
    Invalid(Seq<char>),
    Exec(Seq<char>),
    Db(Seq<char>),
    Other(Seq<char>),
}

impl SolxError {
    pub open spec fn view(&self) -> Failure {
        match self {
            SolxError::NotFound(s) => Failure::NotFound(s@),
            SolxError::Invalid(s) => Failure::Invalid(s@),
            SolxError::Exec(s) => Failure::Exec(s@),
            SolxError::Db(s) => Failure::Db(s@),
            SolxError::Other(s) => Failure::Other(s@),
        }
    }

    /// The message of the error.
    pub fn message(&self) -> (r: String)
        ensures
            r@ == self@.message(),
    {
        match self {
            SolxError::NotFound(s) => s.clone(),
            SolxError::Invalid(s) => s.clone(),
            SolxError::Exec(s) => s.clone(),
            SolxError::Db(s) => s.clone(),
            SolxError::Other(s) => s.clone(),
        }
    }
}

impl Failure {
    pub open spec fn message(self) -> Seq<char> {
        match self {
            Failure::NotFound(s) => s,
            Failure::Invalid(s) => s,
            Failure::Exec(s) => s,
            Failure::Db(s) => s,
            Failure::Other(s) => s,
        }
    }
}

} // verus!

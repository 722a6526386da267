//! The errors this library reports.

use vstd::prelude::*;

verus! {

/// What went wrong, with a human-readable message.
#[derive(Clone, Debug, PartialEq, Eq)]
pub enum Error {
    /// The query as built cannot be executed.
    InvalidQuery(String),
    /// The database returned something the query layer cannot use.
    Query(String),
    /// A requested item does not exist.
    NotFound(String),
    /// The configuration is inconsistent.
    Configuration(String),
}

/// The message carried by an error.
pub open spec fn message_of(e: Error) -> Seq<char> {
    match e {
        Error::InvalidQuery(m) => m@,
        Error::Query(m) => m@,
        Error::NotFound(m) => m@,
        Error::Configuration(m) => m@,
    }
}

impl Error {
    /// The error's message.
    pub fn message(&self) -> (s: String)
        ensures
            s@ == message_of(*self),
    {
        match self {
            Error::InvalidQuery(m) => m.clone(),
            Error::Query(m) => m.clone(),
            Error::NotFound(m) => m.clone(),
            Error::Configuration(m) => m.clone(),
        }
    }
}

} // verus!

//! Error types of the storage codecs, the redb backend and the database facade.
use vstd::prelude::*;

use crate::text::concat;

verus! {

fn error_prefix() -> (r: &'static str)
    ensures
        r@ == "Error: "@,
{
    "Error: "
}

fn engine_prefix() -> (r: &'static str)
    ensures
        r@ == "engine error: "@,
{
    "engine error: "
}

/// A value could not be encoded or decoded.
#[derive(Clone, Debug)]
pub enum CodecError {
    Custom(String),
}

impl CodecError {
    /// An error carrying the given message.
    pub fn custom(message: &str) -> (r: CodecError)
        ensures
            r matches CodecError::Custom(m) && m@ == message@,
    {
        CodecError::Custom(String::from_str(message))
    }

    /// The text of the error: `Error: ` and the message.
    pub fn message(&self) -> (r: String)
        ensures
            self matches CodecError::Custom(m) && r@ == "Error: "@ + m@,
    {
        match self {
            CodecError::Custom(m) => concat(error_prefix(), m.as_str()),
        }
    }
}

/// An operation of the redb backend failed.
#[derive(Clone, Debug)]
pub enum RedbError {
    Custom(String),
}

impl RedbError {
    /// An error carrying the given message.
    pub fn custom(message: &str) -> (r: RedbError)
        ensures
            r matches RedbError::Custom(m) && m@ == message@,
    {
        RedbError::Custom(String::from_str(message))
    }

    /// The text of the error: `Error: ` and the message.
    pub fn message(&self) -> (r: String)
        ensures
            self matches RedbError::Custom(m) && r@ == "Error: "@ + m@,
    {
        match self {
            RedbError::Custom(m) => concat(error_prefix(), m.as_str()),
        }
    }
}

/// Error of the database facade.
#[derive(Clone, Debug)]
pub enum DatabaseError {
    Engine(String),
    Other(String),
}

/// The text of a facade error.
pub open spec fn database_error_text(e: DatabaseError) -> Seq<char> {
    match e {
        DatabaseError::Engine(s) => "engine error: "@ + s@,
        DatabaseError::Other(s) => s@,
    }
}

impl DatabaseError {
    /// The text of the error: an engine error is marked as such, any other
    /// error is its message.
    pub fn message(&self) -> (r: String)
        ensures
            r@ == database_error_text(*self),
    {
        match self {
            DatabaseError::Engine(s) => concat(engine_prefix(), s.as_str()),
            DatabaseError::Other(s) => s.clone(),
        }
    }
}

} // verus!

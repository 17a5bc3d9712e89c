//! The engine's error taxonomy.

use vstd::prelude::*;

verus! {

/// What went wrong, and for which file. A batch surfaces exactly one of
/// these: the first failure it encountered.
#[derive(Debug)]
pub enum EngineError {
    /// The named image could not be parsed.
    Decode(String),
    /// The named artifact could not be persisted.
    Write(String),
    /// The source directory is missing or unreadable.
    Discovery,
    /// The named source path has no usable base name.
    Naming(String),
}

/// The message [`EngineError::describe`] builds.
pub open spec fn describe_spec(e: EngineError) -> Seq<char> {
    match e {
        EngineError::Decode(name) => "could not decode "@ + name@,
        EngineError::Write(name) => "could not write "@ + name@,
        EngineError::Discovery => "could not read the source directory"@,
        EngineError::Naming(name) => "no usable base name: "@ + name@,
    }
}

impl EngineError {
    /// A short human-readable account of the failure.
    pub fn describe(&self) -> (s: String)
        ensures
            s@ == describe_spec(*self),
    {
        match self {
            EngineError::Decode(name) => String::from_str("could not decode ").concat(
                name.as_str(),
            ),
            EngineError::Write(name) => String::from_str("could not write ").concat(name.as_str()),
            EngineError::Discovery => String::from_str("could not read the source directory"),
            EngineError::Naming(name) => String::from_str("no usable base name: ").concat(
                name.as_str(),
            ),
        }
    }
}

} // verus!

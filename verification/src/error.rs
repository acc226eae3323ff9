//! The error type shared by the parts around the engine: option parsing
//! rejects bad arguments, and probing the terminal can fail with an I/O
//! error. The engine itself is total and never produces an error.

use vstd::prelude::*;

verus! {

/// The declared shape of `std::io::Error`, carried by [`Error::IO`]; opaque
/// to the verifier.
#[verifier::external_type_specification]
#[verifier::external_body]
pub struct ExIoError(std::io::Error);

/// Everything that can go wrong around a simulation run.
#[derive(Debug)]
pub enum Error {
    /// A command-line argument was rejected; the message says which and why.
    Options(String),
    /// An operating-system call failed.
    IO(std::io::Error),
}

impl From<std::io::Error> for Error {
    fn from(e: std::io::Error) -> (r: Error) {
        Error::IO(e)
    }
}

impl vstd::std_specs::convert::FromSpecImpl<std::io::Error> for Error {
    open spec fn obeys_from_spec() -> bool {
        true
    }

    open spec fn from_spec(e: std::io::Error) -> Error {
        Error::IO(e)
    }
}

} // verus!

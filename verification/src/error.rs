//! The error taxonomy of the codec.

use vstd::prelude::*;

verus! {

/// `std::io::Error`, carried through unopened: the compression backend
/// reports its failures with it.
#[verifier::external_type_specification]
#[verifier::external_body]
pub struct ExIoError(std::io::Error);

/// Why encoding or decoding failed.
#[derive(Debug)]
pub enum Error {
    /// Too few bytes for the header, wrong magic, or an unknown channel flag.
    MalformedHeader,
    /// The version byte is newer than this implementation understands.
    Unsupported,
    /// Too few bytes for the payload, or pixel bytes that do not fit the
    /// declared geometry.
    MalformedBody,
    /// A failure reported by the compression backend.
    Io(std::io::Error),
}

impl From<std::io::Error> for Error {
    fn from(e: std::io::Error) -> (r: Error) {
        Error::Io(e)
    }
}

impl vstd::std_specs::convert::FromSpecImpl<std::io::Error> for Error {
    open spec fn obeys_from_spec() -> bool {
        true
    }

    open spec fn from_spec(e: std::io::Error) -> Error {
        Error::Io(e)
    }
}

} // verus!

//! What can go wrong when a world file is read.

use std::path::PathBuf;
use vstd::prelude::*;

verus! {

/// `std::path::PathBuf`, carried through as it is.
#[verifier::external_type_specification]
#[verifier::external_body]
pub struct ExPathBuf(PathBuf);

/// `std::io::Error`, carried through as it is.
#[verifier::external_type_specification]
#[verifier::external_body]
pub struct ExIoError(std::io::Error);

/// The error of the `lzzzz` decompressor, carried through as it is.
#[verifier::external_type_specification]
#[verifier::external_body]
pub struct ExLz4Error(lzzzz::Error);

/// Why a world file could not be used.
#[derive(Debug)]
pub enum AnvilError {
    FileNotFound(PathBuf),
    InvalidTables(PathBuf),
    UnableToReadFile(PathBuf, std::io::Error),
    UnableToMapFile(PathBuf, std::io::Error),
    InvalidOffsetOrSize,
    ChecksumMismatch,
    MissingChecksum,
    DecompressionError,
}

impl From<lzzzz::Error> for AnvilError {
    /// Whatever the decompressor reports, the data could not be decompressed.
    fn from(_e: lzzzz::Error) -> (e: AnvilError) {
        AnvilError::DecompressionError
    }
}

impl vstd::std_specs::convert::FromSpecImpl<lzzzz::Error> for AnvilError {
    open spec fn obeys_from_spec() -> bool {
        true
    }

    open spec fn from_spec(e: lzzzz::Error) -> AnvilError {
        AnvilError::DecompressionError
    }
}

} // verus!

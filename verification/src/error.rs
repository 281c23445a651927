//! The errors that end a scan.

use vstd::prelude::*;
use vstd::std_specs::convert::FromSpecImpl;

verus! {

/// `std::io::Error`: the failure of a filesystem operation. The library
/// passes such a value on and never looks inside.
#[verifier::external_type_specification]
#[verifier::external_body]
pub struct ExIoError(std::io::Error);

/// Why a scan ended early.
#[derive(Debug)]
pub enum AppError {
    /// The contents of a directory could not be read.
    IOError(std::io::Error),
    /// No directory to scan was named.
    ArgNotFoundError,
}

impl From<std::io::Error> for AppError {
    /// Wraps the failure of a filesystem operation.
    fn from(error: std::io::Error) -> (r: AppError) {
        AppError::IOError(error)
    }
}

impl FromSpecImpl<std::io::Error> for AppError {
    open spec fn obeys_from_spec() -> bool {
        true
    }

    open spec fn from_spec(error: std::io::Error) -> AppError {
        AppError::IOError(error)
    }
}

} // verus!

//! Errors of a key-value data store.
use vstd::prelude::*;

verus! {

/// `std::io::Error` is carried through unchanged; nothing reads inside it.
#[verifier::external_type_specification]
#[verifier::external_body]
pub struct ExIoError(std::io::Error);

/// Why a data-store operation failed.
#[derive(Debug)]
pub enum DataStoreError {
    /// The store's connection failed with this I/O error.
    Disconnect(std::io::Error),
    /// The data for this key is withheld.
    Redaction(String),
    /// A header differed from the one expected.
    InvalidHeader { expected: String, found: String },
    /// Any other failure.
    Unknown,
}

impl From<std::io::Error> for DataStoreError {
    /// An I/O error means the store was disconnected.
    fn from(e: std::io::Error) -> (r: DataStoreError)
        ensures
            r == DataStoreError::Disconnect(e),
    {
        DataStoreError::Disconnect(e)
    }
}

impl vstd::std_specs::convert::FromSpecImpl<std::io::Error> for DataStoreError {
    open spec fn obeys_from_spec() -> bool {
        true
    }

    open spec fn from_spec(e: std::io::Error) -> DataStoreError {
        DataStoreError::Disconnect(e)
    }
}

} // verus!

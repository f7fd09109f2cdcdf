//! Error type for data looked up by key.

use vstd::prelude::*;

verus! {

/// Failure of a keyed lookup.
#[derive(Debug)]
pub enum DataStoreError {
    /// The data for the named key is not available.
    Redaction(String),
}

impl DataStoreError {
    /// The key whose data was not available.
    pub fn key(&self) -> (k: &String)
        ensures
            *self == DataStoreError::Redaction(*k),
    {
        match self {
            DataStoreError::Redaction(s) => s,
        }
    }
}

} // verus!

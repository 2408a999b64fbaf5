//! The stores that the listener and the sender share.

use vstd::prelude::*;

pub mod allowed_mac;
pub mod arplog;
pub mod config;
pub mod session;

verus! {

/// Why a store operation did not deliver.
#[derive(Clone, Copy, Debug, PartialEq, Eq, Structural)]
pub enum RepositoryError {
    /// The store could not be reached.
    SyncFailed,
    /// The store holds nothing under the given name.
    NotFound,
}

impl RepositoryError {
    /// The text shown for this error.
    pub open spec fn message_text(self) -> Seq<char> {
        match self {
            RepositoryError::SyncFailed => "Failed to get resource"@,
            RepositoryError::NotFound => "Resource not found"@,
        }
    }

    pub fn message(&self) -> (r: String)
        ensures
            r@ == self.message_text(),
    {
        match self {
            RepositoryError::SyncFailed => "Failed to get resource".to_owned(),
            RepositoryError::NotFound => "Resource not found".to_owned(),
        }
    }
}

} // verus!

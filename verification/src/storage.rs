//! Keeping the store between invocations.

use crate::structure::ParrotData;
use vstd::prelude::*;

pub mod json;

verus! {

/// Why the store could not be loaded or saved.
#[derive(Debug, PartialEq, Eq)]
pub enum StorageError {
    /// The backing file could not be created, opened or written.
    Io,
    /// The store could not be encoded for writing.
    Write,
}

/// A place that keeps the store between invocations.
///
/// `save` replaces what was kept by `data` as a whole. `load` gives back what
/// was kept last; where nothing was kept, or what was kept cannot be read as a
/// store, it gives the empty store and does not fail.
pub trait Storage {
    fn save(&mut self, data: &ParrotData) -> Result<(), StorageError>;

    fn load(&self) -> Result<ParrotData, StorageError>;
}

} // verus!

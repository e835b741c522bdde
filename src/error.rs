//! The ways an operation on tasks can fail.
use vstd::prelude::*;

verus! {

/// Why a task operation did not go through.
#[derive(Debug, Clone)]
pub enum TaskError {
    /// No task in the collection has this id.
    NotFound(u32),
    /// A priority or status token matched none of the known values.
    InvalidInput(String),
    /// The stored collection exists and is not blank, but could not be decoded.
    CorruptData(String),
    /// Reading or writing the stored collection failed.
    Io(String),
}

} // verus!

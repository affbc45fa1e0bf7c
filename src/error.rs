//! The ways an operation on a repository can fail.
use vstd::prelude::*;

verus! {

/// Why an operation on a repository failed.
#[derive(Debug, PartialEq, Eq)]
pub enum AltsError {
    /// The control directory or its state file does not exist.
    NotInitialized,
    /// The control directory exists already.
    AlreadyInitialized,
    /// The directory to track is not a directory, or lies outside the working tree.
    InvalidTarget,
    /// The tracked directory does not exist.
    TargetMissing,
    /// The tracked directory has no entries.
    TargetEmpty,
    /// The requested name has no final component, or the name resolved is not
    /// one plain directory name.
    InvalidName,
    /// The index holds a checkpoint of this name already.
    NameCollision(String),
    /// The state file does not hold a valid state.
    CorruptState,
    /// Reading, writing or copying failed.
    Io,
}

} // verus!

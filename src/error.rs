//! The ways in which an operation on a container can fail.
use vstd::prelude::*;

verus! {

/// Why an operation was refused or could not be completed.
#[derive(Clone, Copy, Debug, PartialEq, Eq, Structural)]
pub enum DockError {
    NotFound,
    AlreadyExists,
    AlreadyRunning,
    AlreadyStopped,
    ScriptNotFound,
    DetectionError,
    LaunchError,
    CannotRemoveRunning,
    IOError,
}

} // verus!

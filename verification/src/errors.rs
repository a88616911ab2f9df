//! Failure taxonomy of the session operations.

use vstd::prelude::*;

verus! {

/// Why a session operation failed.
///
/// Reader-side failures are never reported through this type: a failed or
/// finished read surfaces only as the session's terminal exit event.
#[derive(Clone, Copy, Debug, PartialEq, Eq, Structural)]
pub enum SessionError {
    /// A write or resize named an identifier that is not in the registry.
    SessionNotFound,
    /// The pseudo-terminal could not be allocated or the child could not be
    /// spawned; no registry entry was created.
    SpawnFailure,
    /// A write, flush or resize against a live channel failed at the OS
    /// level; the session stays in the registry.
    IoFailure,
    /// The registry lock was poisoned; fatal for the current operation only.
    RegistryUnavailable,
}

impl SessionError {
    /// A human-readable description of the failure.
    pub fn message(&self) -> (r: &'static str)
        ensures
            *self is SessionNotFound ==> r@ == "Session not found"@,
            *self is SpawnFailure ==> r@ == "Failed to spawn command"@,
            *self is IoFailure ==> r@ == "I/O failed"@,
            *self is RegistryUnavailable ==> r@ == "pty state poisoned"@,
    {
        match self {
            SessionError::SessionNotFound => "Session not found",
            SessionError::SpawnFailure => "Failed to spawn command",
            SessionError::IoFailure => "I/O failed",
            SessionError::RegistryUnavailable => "pty state poisoned",
        }
    }
}

} // verus!

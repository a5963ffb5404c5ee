use vstd::prelude::*;
use vstd::string::StringExecFns;

verus! {

/// Why a supervisor operation failed. Every failure is surfaced to the
/// caller as a value; none terminates the supervisor.
#[derive(Debug)]
pub enum VerdaccioError {
    /// A start was requested while a process is already supervised.
    AlreadyRunning,
    /// No install tree holds the server's entry script.
    EntryNotFound,
    /// The operating system refused to create the process.
    SpawnFailed(String),
    /// The operating system refused to signal the process; the supervisor's
    /// bookkeeping is cleared regardless.
    KillFailed(String),
    /// A filesystem read or write failed.
    Io(String),
    /// A mutual-exclusion primitive was poisoned or unavailable.
    LockFailed,
}

/// The human-readable rendering of each failure.
pub open spec fn spec_error_message(e: VerdaccioError) -> Seq<char> {
    match e {
        VerdaccioError::AlreadyRunning => "Verdaccio is already running"@,
        VerdaccioError::EntryNotFound =>
            "Could not find Verdaccio; run pnpm prepare:runtime"@,
        VerdaccioError::SpawnFailed(d) => "Failed to start Verdaccio: "@ + d@,
        VerdaccioError::KillFailed(d) => "Failed to stop process: "@ + d@,
        VerdaccioError::Io(d) => "I/O failure: "@ + d@,
        VerdaccioError::LockFailed => "Lock failure"@,
    }
}

impl VerdaccioError {
    /// The human-readable message shown at the boundary.
    pub fn message(&self) -> (r: String)
        ensures
            r@ == spec_error_message(*self),
    {
        match self {
            VerdaccioError::AlreadyRunning => "Verdaccio is already running".to_owned(),
            VerdaccioError::EntryNotFound =>
                "Could not find Verdaccio; run pnpm prepare:runtime".to_owned(),
            VerdaccioError::SpawnFailed(d) => "Failed to start Verdaccio: ".to_owned().concat(
                d.as_str(),
            ),
            VerdaccioError::KillFailed(d) => "Failed to stop process: ".to_owned().concat(
                d.as_str(),
            ),
            VerdaccioError::Io(d) => "I/O failure: ".to_owned().concat(d.as_str()),
            VerdaccioError::LockFailed => "Lock failure".to_owned(),
        }
    }
}

} // verus!

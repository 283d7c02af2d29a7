//! The failure values that the core reports to its callers.

use vstd::prelude::*;

verus! {

/// A failure reported by the operating system for a watch-descriptor open,
/// a process spawn or a reap request, carrying the OS error code.
#[derive(Clone, Copy, Debug, PartialEq, Eq, Structural)]
pub struct OsError {
    pub code: i32,
}

/// Why wrapping a freshly spawned process failed.
#[derive(Clone, Copy, Debug, PartialEq, Eq, Structural)]
pub enum SpawnError {
    /// The OS refused the spawn, or the watch-descriptor open failed.
    Os(OsError),
    /// The spawn facility could not report a process identifier after
    /// starting the process; the already-started process must still be
    /// disposed of by the caller.
    ProcessIdUnavailable,
}

/// Why handing a completion event to the aggregator failed. The failure is
/// reported to the sender; it is not fatal to the sending task.
#[derive(Clone, Copy, Debug, PartialEq, Eq, Structural)]
pub enum SendFailure {
    /// The aggregator's inbound channel has no live receiver.
    ChannelClosed,
}

/// Decide whether a freshly spawned process reported a usable identifier.
///
/// `reported` is the identifier as the spawn facility handed it back, absent
/// when the facility could not name the new process.
pub fn pid_of_spawned(reported: Option<u32>) -> (r: Result<u32, SpawnError>)
    ensures
        reported is Some ==> r == Result::<u32, SpawnError>::Ok(reported->0),
        reported is None ==> r == Result::<u32, SpawnError>::Err(SpawnError::ProcessIdUnavailable),
{
    match reported {
        Some(pid) => Ok(pid),
        None => Err(SpawnError::ProcessIdUnavailable),
    }
}

} // verus!

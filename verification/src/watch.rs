//! The watch descriptor that a completion primitive polls for readiness.

use vstd::prelude::*;
use crate::errors::OsError;

verus! {

/// One OS-assigned watch descriptor, bound to exactly one process identifier
/// at creation. The descriptor becomes readable exactly when that process
/// exits; it is exclusively owned by one completion primitive and is invalid
/// once that primitive completes or is discarded.
#[derive(Clone, Copy, Debug, PartialEq, Eq, Structural)]
pub struct ProcessWaitHandle {
    fd: i32,
    pid: i32,
}

impl ProcessWaitHandle {
    /// The watch descriptor itself.
    pub closed spec fn fd_of(self) -> i32 {
        self.fd
    }

    /// The process identifier the descriptor was bound to at creation.
    pub closed spec fn pid_of(self) -> i32 {
        self.pid
    }

    /// A usable handle holds a real descriptor, never an error sentinel.
    pub open spec fn wf(self) -> bool {
        self.fd_of() >= 0
    }

    /// Interpret the raw return value of the OS "open a watch descriptor for
    /// this process" request. The OS answers with the new descriptor, or with
    /// a negative sentinel, in which case `err_code` names the failure (an
    /// invalid identifier, denied permission, or an exhausted descriptor
    /// table). A non-negative answer yields a usable handle bound to `pid`;
    /// a negative one yields the OS error, never a handle.
    pub fn open(pid: i32, ret: i64, err_code: i32) -> (r: Result<ProcessWaitHandle, OsError>)
        requires
            ret <= i32::MAX,
        ensures
            ret >= 0 ==> (r matches Ok(h) && h.fd_of() == ret && h.pid_of() == pid && h.wf()),
            ret < 0 ==> r == Result::<ProcessWaitHandle, OsError>::Err(OsError { code: err_code }),
    {
        if ret >= 0 {
            Ok(ProcessWaitHandle { fd: ret as i32, pid })
        } else {
            Err(OsError { code: err_code })
        }
    }

    /// The raw descriptor, for registration with the surrounding reactor as
    /// a readiness source.
    pub fn raw_fd(&self) -> (fd: i32)
        ensures
            fd == self.fd_of(),
    {
        self.fd
    }

    /// The process identifier this handle observes.
    pub fn process_id(&self) -> (pid: i32)
        ensures
            pid == self.pid_of(),
    {
        self.pid
    }
}

} // verus!

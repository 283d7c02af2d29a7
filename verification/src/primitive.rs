//! The completion primitive's state machine.
//!
//! A primitive owns a spawned process and its watch handle, suspends its
//! caller until the process has exited, then performs the definitive reap
//! and extracts the CPU-time usage. The surrounding poll loop observes the
//! reactor and the OS and hands each observation to [`CompletionCore::step`]
//! as a plain [`PollEvent`]; the step decides the next state and tells the
//! loop what to do, so every transition of the lifecycle is decided here.

use vstd::prelude::*;
use crate::errors::OsError;
use crate::usage::TimingInfo;
use crate::watch::ProcessWaitHandle;

verus! {

/// The OS "operation would block, try again" error code. A reap request that
/// answers with it despite a readiness signal is a normal scheduling artifact
/// of edge-triggered readiness, not a failure.
pub const AGAIN_CODE: i32 = 11;

/// The lifecycle of one completion primitive: created `Pending`, it moves to
/// `Resolved` or `Failed` exactly once and never leaves a terminal state.
#[derive(Clone, Copy, Debug, PartialEq, Eq, Structural)]
pub enum CompletionState {
    /// The owned process has not been reaped yet.
    Pending,
    /// The definitive reap succeeded and produced this measurement.
    Resolved(TimingInfo),
    /// The OS reported a failure; the primitive will never resolve.
    Failed(OsError),
}

/// What one suspend/resume cycle of the poll loop observed.
#[derive(Clone, Copy, Debug, PartialEq, Eq, Structural)]
pub enum PollEvent {
    /// The reactor says the watch descriptor is not readable yet.
    NotReadable,
    /// The reactor itself failed while checking readiness.
    ReadinessFailed { code: i32 },
    /// The non-blocking "reap and collect usage" request returned. `ret` is
    /// its raw return value (negative on failure), `err_code` the OS error
    /// code in that case, and `usage` the measurement extracted from the
    /// zero-initialized raw structure the request wrote into.
    ReapReturned { ret: i32, err_code: i32, usage: TimingInfo },
}

/// What the poll loop must do after a step.
#[derive(Clone, Copy, Debug, PartialEq, Eq, Structural)]
pub enum PollAction {
    /// Register interest in the watch descriptor and suspend the task.
    Suspend,
    /// The readiness signal was stale: go back to asking the reactor,
    /// without reporting anything to the caller.
    Retry,
    /// The primitive resolved: hand the caller the measurement.
    Complete,
    /// The primitive failed: hand the caller the OS error.
    Fail,
    /// The primitive was already terminal; there is nothing left to do.
    Settled,
}

/// The state a step leaves behind, with the action it asks of the loop.
pub struct StepResult {
    pub state: CompletionState,
    pub reaped: bool,
    pub action: PollAction,
}

/// The transition relation of the lifecycle: one observed event applied to
/// one state. Terminal states are fixed points; while `Pending`, a stale
/// readiness signal re-arms, a successful reap resolves, and any other OS
/// failure is terminal.
pub open spec fn spec_step(st: CompletionState, reaped: bool, e: PollEvent) -> StepResult {
    if !(st is Pending) {
        StepResult { state: st, reaped, action: PollAction::Settled }
    } else {
        match e {
            PollEvent::NotReadable => StepResult {
                state: CompletionState::Pending,
                reaped,
                action: PollAction::Suspend,
            },
            PollEvent::ReadinessFailed { code } => StepResult {
                state: CompletionState::Failed(OsError { code }),
                reaped,
                action: PollAction::Fail,
            },
            PollEvent::ReapReturned { ret, err_code, usage } => {
                if ret >= 0 {
                    StepResult {
                        state: CompletionState::Resolved(usage),
                        reaped: true,
                        action: PollAction::Complete,
                    }
                } else if err_code == AGAIN_CODE {
                    StepResult {
                        state: CompletionState::Pending,
                        reaped,
                        action: PollAction::Retry,
                    }
                } else {
                    StepResult {
                        state: CompletionState::Failed(OsError { code: err_code }),
                        reaped: true,
                        action: PollAction::Fail,
                    }
                }
            },
        }
    }
}

/// The decision side of one completion primitive: the watch handle it owns,
/// its lifecycle state, and whether the owned process has been definitively
/// reaped.
pub struct CompletionCore {
    handle: ProcessWaitHandle,
    state: CompletionState,
    reaped: bool,
}

/// What discarding a primitive asks of its owner.
#[derive(Clone, Copy, Debug, PartialEq, Eq, Structural)]
pub enum DiscardAction {
    /// The owned process is still unreaped: perform a final, possibly
    /// blocking, reap before releasing it, discarding the measurement.
    ReapBlocking,
    /// The definitive reap already happened; just release the handles.
    AlreadyReaped,
}

impl CompletionCore {
    /// The lifecycle state.
    pub closed spec fn state_of(self) -> CompletionState {
        self.state
    }

    /// Whether the owned process has been definitively reaped.
    pub closed spec fn reaped_of(self) -> bool {
        self.reaped
    }

    /// The watch handle this primitive exclusively owns.
    pub closed spec fn handle_of(self) -> ProcessWaitHandle {
        self.handle
    }

    /// The owned watch handle is usable, and a resolved primitive always got
    /// its measurement from the definitive reap, so its process is reaped.
    pub open spec fn wf(self) -> bool {
        &&& self.handle_of().wf()
        &&& self.state_of() is Resolved ==> self.reaped_of()
    }

    /// A fresh primitive owning `handle`: pending, its process alive and
    /// unreaped.
    pub fn new(handle: ProcessWaitHandle) -> (c: CompletionCore)
        requires
            handle.wf(),
        ensures
            c.handle_of() == handle,
            c.state_of() == CompletionState::Pending,
            !c.reaped_of(),
            c.wf(),
    {
        CompletionCore { handle, state: CompletionState::Pending, reaped: false }
    }

    /// The owned watch handle, for the poll loop to ask the reactor about.
    pub fn watch_handle(&self) -> (h: ProcessWaitHandle)
        ensures
            h == self.handle_of(),
    {
        self.handle
    }

    /// Apply one observed event, exactly as [`spec_step`] decides.
    pub fn step(&mut self, event: PollEvent) -> (a: PollAction)
        requires
            old(self).wf(),
        ensures
            final(self).wf(),
            final(self).handle_of() == old(self).handle_of(),
            spec_step(old(self).state_of(), old(self).reaped_of(), event) == (StepResult {
                state: final(self).state_of(),
                reaped: final(self).reaped_of(),
                action: a,
            }),
            a is Complete ==> final(self).state_of() is Resolved,
            a is Fail ==> final(self).state_of() is Failed,
    {
        if !(matches!(self.state, CompletionState::Pending)) {
            return PollAction::Settled;
        }
        match event {
            PollEvent::NotReadable => PollAction::Suspend,
            PollEvent::ReadinessFailed { code } => {
                self.state = CompletionState::Failed(OsError { code });
                PollAction::Fail
            },
            PollEvent::ReapReturned { ret, err_code, usage } => {
                if ret >= 0 {
                    self.state = CompletionState::Resolved(usage);
                    self.reaped = true;
                    PollAction::Complete
                } else if err_code == AGAIN_CODE {
                    PollAction::Retry
                } else {
                    self.state = CompletionState::Failed(OsError { code: err_code });
                    self.reaped = true;
                    PollAction::Fail
                }
            },
        }
    }

    /// The current lifecycle state.
    pub fn state(&self) -> (s: CompletionState)
        ensures
            s == self.state_of(),
    {
        self.state
    }

    /// Whether the owned process has been definitively reaped.
    pub fn reaped(&self) -> (b: bool)
        ensures
            b == self.reaped_of(),
    {
        self.reaped
    }

    /// The measurement, once resolved.
    pub fn resolved_usage(&self) -> (r: Option<TimingInfo>)
        ensures
            self.state_of() is Resolved ==> r == Some(self.state_of()->Resolved_0),
            !(self.state_of() is Resolved) ==> r is None,
    {
        match self.state {
            CompletionState::Resolved(u) => Some(u),
            _ => None,
        }
    }

    /// Decide what discarding this primitive must do, and account for it:
    /// afterwards the owned process is reaped in every case, so a discarded
    /// primitive never leaves a zombie behind.
    pub fn on_discard(&mut self) -> (a: DiscardAction)
        ensures
            final(self).reaped_of(),
            final(self).state_of() == old(self).state_of(),
            final(self).handle_of() == old(self).handle_of(),
            a == DiscardAction::ReapBlocking <==> !old(self).reaped_of(),
    {
        if self.reaped {
            DiscardAction::AlreadyReaped
        } else {
            self.reaped = true;
            DiscardAction::ReapBlocking
        }
    }
}

/// A primitive resolves exactly once: in a terminal state (`Resolved` or
/// `Failed`) no event changes the state, the reap accounting, or issues any
/// work besides acknowledging that the primitive settled.
pub proof fn lemma_terminal_state_is_final(st: CompletionState, reaped: bool, e: PollEvent)
    requires
        !(st is Pending),
    ensures
        spec_step(st, reaped, e).state == st,
        spec_step(st, reaped, e).reaped == reaped,
        spec_step(st, reaped, e).action is Settled,
{
}

/// A "would block" answer from the reap request never transitions the state
/// machine and never surfaces as an error: the primitive stays pending and
/// the loop merely re-arms readiness.
pub proof fn lemma_would_block_is_no_error(
    reaped: bool,
    ret: i32,
    err_code: i32,
    usage: TimingInfo,
)
    requires
        ret < 0,
        err_code == AGAIN_CODE,
    ensures
        spec_step(
            CompletionState::Pending,
            reaped,
            PollEvent::ReapReturned { ret, err_code, usage },
        ) == (StepResult {
            state: CompletionState::Pending,
            reaped,
            action: PollAction::Retry,
        }),
{
}

} // verus!

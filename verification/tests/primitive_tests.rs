use proctime::errors::pid_of_spawned;
use proctime::CompletionCore;
use proctime::CompletionState;
use proctime::DiscardAction;
use proctime::OsError;
use proctime::PollAction;
use proctime::PollEvent;
use proctime::ProcessWaitHandle;
use proctime::TimeVal;
use proctime::TimingInfo;

const AGAIN: i32 = 11;

fn handle() -> ProcessWaitHandle {
    ProcessWaitHandle::open(1234, 5, 0).expect("a non-negative return yields a handle")
}

fn sample_usage() -> TimingInfo {
    TimingInfo {
        user_time: TimeVal { seconds: 2, micros: 345_678 },
        sys_time: TimeVal { seconds: 0, micros: 12_345 },
    }
}

#[test]
fn open_with_valid_descriptor_yields_usable_handle() {
    let h = ProcessWaitHandle::open(42, 7, 0).expect("descriptor 7 must be accepted");
    assert_eq!(h.raw_fd(), 7);
    assert_eq!(h.process_id(), 42);
}

#[test]
fn open_with_os_failure_yields_os_error() {
    let r = ProcessWaitHandle::open(-1, -1, 22);
    assert_eq!(r, Err(OsError { code: 22 }));
}

#[test]
fn spawned_process_with_reported_pid_is_accepted() {
    assert_eq!(pid_of_spawned(Some(4321)), Ok(4321));
}

#[test]
fn spawned_process_without_pid_is_a_spawn_failure() {
    assert_eq!(pid_of_spawned(None), Err(proctime::SpawnError::ProcessIdUnavailable));
}

#[test]
fn fresh_primitive_is_pending_and_unreaped() {
    let c = CompletionCore::new(handle());
    assert_eq!(c.state(), CompletionState::Pending);
    assert!(!c.reaped());
    assert_eq!(c.resolved_usage(), None);
}

#[test]
fn not_readable_suspends_without_transition() {
    let mut c = CompletionCore::new(handle());
    let a = c.step(PollEvent::NotReadable);
    assert_eq!(a, PollAction::Suspend);
    assert_eq!(c.state(), CompletionState::Pending);
    assert!(!c.reaped());
}

#[test]
fn would_block_retries_without_transition_or_error() {
    let mut c = CompletionCore::new(handle());
    let a = c.step(PollEvent::ReapReturned { ret: -1, err_code: AGAIN, usage: sample_usage() });
    assert_eq!(a, PollAction::Retry);
    assert_eq!(c.state(), CompletionState::Pending);
    assert!(!c.reaped());
    assert_eq!(c.resolved_usage(), None);
}

#[test]
fn successful_reap_resolves_with_the_measurement() {
    let mut c = CompletionCore::new(handle());
    let a = c.step(PollEvent::ReapReturned { ret: 0, err_code: 0, usage: sample_usage() });
    assert_eq!(a, PollAction::Complete);
    assert_eq!(c.state(), CompletionState::Resolved(sample_usage()));
    assert!(c.reaped());
    assert_eq!(c.resolved_usage(), Some(sample_usage()));
    let us = c.resolved_usage().unwrap();
    assert!(us.user_time.seconds >= 0);
    assert!(us.sys_time.seconds >= 0);
}

#[test]
fn reap_failure_fails_with_the_os_error() {
    let mut c = CompletionCore::new(handle());
    let a = c.step(PollEvent::ReapReturned { ret: -1, err_code: 10, usage: sample_usage() });
    assert_eq!(a, PollAction::Fail);
    assert_eq!(c.state(), CompletionState::Failed(OsError { code: 10 }));
    assert!(c.reaped());
}

#[test]
fn readiness_failure_fails_with_the_os_error() {
    let mut c = CompletionCore::new(handle());
    let a = c.step(PollEvent::ReadinessFailed { code: 9 });
    assert_eq!(a, PollAction::Fail);
    assert_eq!(c.state(), CompletionState::Failed(OsError { code: 9 }));
}

#[test]
fn resolved_primitive_never_transitions_again() {
    let mut c = CompletionCore::new(handle());
    c.step(PollEvent::ReapReturned { ret: 0, err_code: 0, usage: sample_usage() });
    let resolved = c.state();
    let a = c.step(PollEvent::ReadinessFailed { code: 9 });
    assert_eq!(a, PollAction::Settled);
    assert_eq!(c.state(), resolved);
    let other = TimingInfo::zero();
    let a = c.step(PollEvent::ReapReturned { ret: 0, err_code: 0, usage: other });
    assert_eq!(a, PollAction::Settled);
    assert_eq!(c.state(), resolved);
}

#[test]
fn failed_primitive_never_transitions_again() {
    let mut c = CompletionCore::new(handle());
    c.step(PollEvent::ReadinessFailed { code: 9 });
    let a = c.step(PollEvent::ReapReturned { ret: 0, err_code: 0, usage: sample_usage() });
    assert_eq!(a, PollAction::Settled);
    assert_eq!(c.state(), CompletionState::Failed(OsError { code: 9 }));
}

#[test]
fn discarding_pending_primitive_demands_a_reap() {
    let mut c = CompletionCore::new(handle());
    let a = c.on_discard();
    assert_eq!(a, DiscardAction::ReapBlocking);
    assert!(c.reaped());
    let again = c.on_discard();
    assert_eq!(again, DiscardAction::AlreadyReaped);
}

#[test]
fn discarding_resolved_primitive_needs_no_reap() {
    let mut c = CompletionCore::new(handle());
    c.step(PollEvent::ReapReturned { ret: 0, err_code: 0, usage: sample_usage() });
    let a = c.on_discard();
    assert_eq!(a, DiscardAction::AlreadyReaped);
    assert!(c.reaped());
}

use proctime::AggregationMap;
use proctime::CompletionCore;
use proctime::LoggingMessage;
use proctime::PollAction;
use proctime::PollEvent;
use proctime::ProcessWaitHandle;
use proctime::TimeVal;
use proctime::TimingInfo;

fn usage(us: i64, uu: i64, ss: i64, su: i64) -> TimingInfo {
    TimingInfo {
        user_time: TimeVal { seconds: us, micros: uu },
        sys_time: TimeVal { seconds: ss, micros: su },
    }
}

#[test]
fn empty_map_dumps_an_empty_snapshot() {
    let m = AggregationMap::new();
    let snap = m.dump();
    assert!(snap.is_empty());
}

#[test]
fn dump_request_on_empty_map_answers_and_mutates_nothing() {
    let mut m = AggregationMap::new();
    let snap = m.handle(LoggingMessage::Dump);
    assert_eq!(snap, Some(vec![]));
    assert_eq!(m.get(0), None);
    assert!(m.dump().is_empty());
}

#[test]
fn first_delivery_for_a_token_is_stored_as_is() {
    let mut m = AggregationMap::new();
    m.record(7, usage(1, 2, 3, 4));
    assert_eq!(m.get(7), Some(usage(1, 2, 3, 4)));
    assert_eq!(m.get(8), None);
}

#[test]
fn two_deliveries_for_one_token_sum_exactly() {
    let mut m = AggregationMap::new();
    m.record(1, usage(1, 500_000, 2, 100_000));
    m.record(1, usage(3, 400_000, 5, 800_000));
    assert_eq!(m.get(1), Some(usage(4, 900_000, 7, 900_000)));
}

#[test]
fn repeated_deliveries_sum_regardless_of_order() {
    let a = usage(1, 10, 100, 1000);
    let b = usage(2, 20, 200, 2000);
    let c = usage(3, 30, 300, 3000);

    let mut m1 = AggregationMap::new();
    m1.record(5, a);
    m1.record(5, b);
    m1.record(5, c);

    let mut m2 = AggregationMap::new();
    m2.record(5, c);
    m2.record(5, a);
    m2.record(5, b);

    assert_eq!(m1.get(5), m2.get(5));
    assert_eq!(m1.get(5), Some(usage(6, 60, 600, 6000)));
}

#[test]
fn distinct_tokens_do_not_mix() {
    let mut m = AggregationMap::new();
    m.record(2, usage(1, 0, 0, 0));
    m.record(9, usage(0, 0, 1, 0));
    m.record(2, usage(1, 0, 0, 0));
    assert_eq!(m.get(2), Some(usage(2, 0, 0, 0)));
    assert_eq!(m.get(9), Some(usage(0, 0, 1, 0)));
}

#[test]
fn dump_is_sorted_by_token_whatever_the_delivery_order() {
    let mut m = AggregationMap::new();
    m.record(30, usage(3, 0, 0, 0));
    m.record(10, usage(1, 0, 0, 0));
    m.record(20, usage(2, 0, 0, 0));
    m.record(10, usage(1, 0, 0, 0));
    let snap = m.dump();
    let tokens: Vec<u32> = snap.iter().map(|p| p.0).collect();
    assert_eq!(tokens, vec![10, 20, 30]);
    assert_eq!(snap[0].1, usage(2, 0, 0, 0));
    assert_eq!(snap[1].1, usage(2, 0, 0, 0));
    assert_eq!(snap[2].1, usage(3, 0, 0, 0));
}

#[test]
fn dump_does_not_reset_the_map() {
    let mut m = AggregationMap::new();
    m.record(4, usage(1, 1, 1, 1));
    let first = m.dump();
    let second = m.dump();
    assert_eq!(first, second);
    assert_eq!(m.get(4), Some(usage(1, 1, 1, 1)));
}

#[test]
fn one_resolution_reaches_token_zero_with_non_negative_seconds() {
    // One short-lived process, observed to completion and merged at token 0.
    let handle = ProcessWaitHandle::open(100, 3, 0).unwrap();
    let mut core = CompletionCore::new(handle);
    let measured = usage(0, 41_000, 0, 7_000);
    let a = core.step(PollEvent::ReapReturned { ret: 0, err_code: 0, usage: measured });
    assert_eq!(a, PollAction::Complete);
    let resolved = core.resolved_usage().unwrap();

    let mut m = AggregationMap::new();
    m.handle(LoggingMessage::ProcessCompleted { token: 0, timing_info: resolved });
    let entry = m.get(0).unwrap();
    assert!(entry.user_time.seconds >= 0);
    assert!(entry.sys_time.seconds >= 0);
    assert_eq!(entry, measured);
}

#[test]
fn completed_message_merges_like_record() {
    let mut m = AggregationMap::new();
    let r1 = m.handle(LoggingMessage::ProcessCompleted { token: 1, timing_info: usage(1, 0, 0, 0) });
    assert_eq!(r1, None);
    let r2 = m.handle(LoggingMessage::ProcessCompleted { token: 1, timing_info: usage(2, 0, 0, 0) });
    assert_eq!(r2, None);
    let snap = m.handle(LoggingMessage::Dump).expect("a dump answers with a snapshot");
    assert_eq!(snap, vec![(1, usage(3, 0, 0, 0))]);
}

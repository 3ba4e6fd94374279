use collie_waker::time::TimeSpan;
use collie_waker::wake::{RoundDecision, WakeAttempt, WakeOutcome, WakeTimings};
use collie_waker::wol::RateLimiter;

const SEC: u64 = 1_000_000_000;

fn timings() -> WakeTimings {
    WakeTimings {
        timeout: TimeSpan::from_secs(45),
        health_interval: TimeSpan::from_secs(5),
        poll_interval: TimeSpan::from_secs(1),
    }
}

struct Run {
    outcome: WakeOutcome,
    packets: usize,
    polls: usize,
    elapsed: u64,
}

/// Drives one wake request against a clock that only moves while waiting:
/// Collie answers from poll number `awake_after` on, and every send
/// succeeds where `sends_succeed` holds.
fn run(awake_after: usize, sends_succeed: bool) -> Run {
    let start: u64 = 1_000;
    let mut now = start;
    let mut limiter = RateLimiter::new(TimeSpan::from_secs(10));
    let attempt = WakeAttempt::start(timings(), now);
    let mut packets = 0;
    let mut polls = 0;
    loop {
        if limiter.permits(now) {
            if sends_succeed {
                packets += 1;
            }
            limiter.after_send(now, sends_succeed);
        }
        let awake = polls >= awake_after;
        polls += 1;
        let decision = attempt.after_poll(awake, now);
        match decision {
            RoundDecision::Awake { settle } => now += settle.as_nanos() as u64,
            RoundDecision::TimedOut => {}
            RoundDecision::PollAgain { after } => now += after.as_nanos() as u64,
        }
        if let Some(outcome) = decision.outcome() {
            return Run {
                outcome,
                packets,
                polls,
                elapsed: now - start,
            };
        }
    }
}

#[test]
fn returns_awake_once_collie_answers() {
    let run = run(0, true);
    assert_eq!(run.outcome, WakeOutcome::Awake);
    assert_eq!(run.packets, 1);
}

#[test]
fn waits_one_health_interval_before_reporting_awake() {
    let run = run(0, true);
    assert_eq!(run.outcome, WakeOutcome::Awake);
    assert!(run.elapsed >= 5 * SEC);
}

#[test]
fn polls_until_collie_wakes_up() {
    let run = run(12, true);
    assert_eq!(run.outcome, WakeOutcome::Awake);
    // 13 poll rounds over ~12s, but the 10s rate limit caps the packets.
    assert_eq!(run.polls, 13);
    assert_eq!(run.packets, 2);
}

#[test]
fn times_out_when_collie_never_answers() {
    let run = run(usize::MAX, true);
    assert_eq!(run.outcome, WakeOutcome::TimedOut);
    assert!(run.elapsed <= 45 * SEC);
    assert_eq!(run.polls, 45);
}

#[test]
fn keeps_polling_when_the_magic_packet_fails() {
    let run = run(3, false);
    assert_eq!(run.outcome, WakeOutcome::Awake);
    assert_eq!(run.packets, 0);
    assert_eq!(run.polls, 4);
}

#[test]
fn gives_up_when_one_more_poll_would_pass_the_deadline() {
    let attempt = WakeAttempt::start(timings(), 0);
    assert!(matches!(
        attempt.after_poll(false, 43 * SEC),
        RoundDecision::PollAgain { .. }
    ));
    assert!(matches!(
        attempt.after_poll(false, 44 * SEC),
        RoundDecision::TimedOut
    ));
    assert!(matches!(
        attempt.after_poll(true, 100 * SEC),
        RoundDecision::Awake { .. }
    ));
}

#[test]
fn an_answer_near_the_deadline_waits_only_what_is_left_of_the_budget() {
    let attempt = WakeAttempt::start(timings(), 0);
    assert!(matches!(
        attempt.after_poll(false, 43 * SEC),
        RoundDecision::PollAgain { .. }
    ));
    match attempt.after_poll(true, 44 * SEC) {
        RoundDecision::Awake { settle } => assert_eq!(settle.as_nanos(), u128::from(SEC)),
        _ => panic!("expected Awake"),
    }
    match attempt.after_poll(true, 40 * SEC) {
        RoundDecision::Awake { settle } => assert_eq!(settle.as_secs(), 5),
        _ => panic!("expected Awake"),
    }
    match attempt.after_poll(true, 50 * SEC) {
        RoundDecision::Awake { settle } => assert_eq!(settle.as_nanos(), 0),
        _ => panic!("expected Awake"),
    }
}

#[test]
fn every_request_ends_within_the_budget() {
    for awake_after in [0, 1, 12, 39, 40, 41, 44, usize::MAX] {
        let run = run(awake_after, true);
        assert!(run.elapsed <= 45 * SEC, "answer after {awake_after} polls");
    }
}

#[test]
fn failed_packets_leave_the_schedule_alone() {
    for awake_after in [0, 3, 12, usize::MAX] {
        let ok = run(awake_after, true);
        let failing = run(awake_after, false);
        assert_eq!(ok.outcome, failing.outcome);
        assert_eq!(ok.polls, failing.polls);
        assert_eq!(ok.elapsed, failing.elapsed);
        assert_eq!(failing.packets, 0);
    }
}

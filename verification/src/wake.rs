//! The decisions of one wake request: send a packet, poll Collie, then
//! either wait one health-check interval and report it awake, give up once
//! the wake budget cannot cover another poll, or wait and poll again.
use vstd::prelude::*;

use crate::time::TimeSpan;
use crate::wol::packet_permitted;

verus! {

#[derive(Debug, Clone, Copy, PartialEq, Eq, Structural)]
pub enum WakeOutcome {
    /// Collie answered and the failover has had a health-check interval to flip
    /// back to the primary. Safe to redirect.
    Awake,
    /// The budget expired before Collie answered.
    TimedOut,
}

#[derive(Clone, Copy, Debug)]
pub struct WakeTimings {
    /// Give up after this long and serve the 503 auto-reload page.
    pub timeout: TimeSpan,
    /// One Traefik health-check interval, waited after Collie answers.
    pub health_interval: TimeSpan,
    /// Delay between polls of Collie.
    pub poll_interval: TimeSpan,
}

/// What to do after one poll of Collie.
#[derive(Debug, Clone, Copy)]
pub enum RoundDecision {
    /// Collie answered: wait `settle`, then report `Awake`.
    Awake { settle: TimeSpan },
    /// Another poll would run past the budget: report `TimedOut` now.
    TimedOut,
    /// Wait `after`, then send and poll again.
    PollAgain { after: TimeSpan },
}

/// One wake request in progress.
#[derive(Clone, Copy, Debug)]
pub struct WakeAttempt {
    pub timings: WakeTimings,
    /// When the budget runs out, in nanoseconds since the caller's origin.
    pub deadline: u128,
}

/// The time left in the budget at `now`; none once the deadline has passed.
pub open spec fn remaining(attempt: WakeAttempt, now: int) -> nat {
    if now < attempt.deadline {
        (attempt.deadline - now) as nat
    } else {
        0
    }
}

/// How long to wait, once Collie answered at `now`, before reporting it
/// awake: one health-check interval, cut short where the budget ends first.
pub open spec fn settle_nanos(attempt: WakeAttempt, now: int) -> nat {
    if attempt.timings.health_interval@ <= remaining(attempt, now) {
        attempt.timings.health_interval@
    } else {
        remaining(attempt, now)
    }
}

/// Whether `d` is the decision after a poll at `now` that found Collie
/// awake or not: awake, wait `settle_nanos` and report it; not awake and
/// another poll interval would reach the deadline, give up now; otherwise
/// wait one poll interval and poll again.
pub open spec fn decided_after_poll(attempt: WakeAttempt, collie_awake: bool, now: u64, d: RoundDecision) -> bool {
    if collie_awake {
        d matches RoundDecision::Awake { settle } && settle@ == settle_nanos(attempt, now as int)
    } else if now + attempt.timings.poll_interval@ >= attempt.deadline {
        d is TimedOut
    } else {
        d == (RoundDecision::PollAgain { after: attempt.timings.poll_interval })
    }
}

/// When the request acts next after decision `d` taken at `now`: the end of
/// the wait it asks for, or `now` where it gives up.
pub open spec fn decision_ends_at(d: RoundDecision, now: u64) -> nat {
    match d {
        RoundDecision::Awake { settle } => (now + settle@) as nat,
        RoundDecision::TimedOut => now as nat,
        RoundDecision::PollAgain { after } => (now + after@) as nat,
    }
}

impl RoundDecision {
    /// The outcome the request ends with, once any wait is done; `None`
    /// while it goes on polling.
    pub fn outcome(&self) -> (o: Option<WakeOutcome>)
        ensures
            o == match *self {
                RoundDecision::Awake { .. } => Some(WakeOutcome::Awake),
                RoundDecision::TimedOut => Some(WakeOutcome::TimedOut),
                RoundDecision::PollAgain { .. } => None,
            },
    {
        match self {
            RoundDecision::Awake { .. } => Some(WakeOutcome::Awake),
            RoundDecision::TimedOut => Some(WakeOutcome::TimedOut),
            RoundDecision::PollAgain { .. } => None,
        }
    }
}

impl WakeAttempt {
    /// Starts a wake request at `now`: the budget ends `timeout` later.
    pub fn start(timings: WakeTimings, now: u64) -> (a: WakeAttempt)
        ensures
            a.timings == timings,
            a.deadline == now + timings.timeout@,
    {
        let timeout = timings.timeout.as_nanos();
        assert(now + timeout < u128::MAX) by (nonlinear_arith)
            requires now <= u64::MAX, timeout <= u64::MAX as nat * 1_000_000_000 + 999_999_999;
        WakeAttempt { timings, deadline: now as u128 + timeout }
    }

    /// What to do after a poll at `now` that found Collie awake or not.
    pub fn after_poll(&self, collie_awake: bool, now: u64) -> (d: RoundDecision)
        ensures
            decided_after_poll(*self, collie_awake, now, d),
            (d is Awake) == collie_awake,
            (d is TimedOut) == (!collie_awake && now + self.timings.poll_interval@ >= self.deadline),
            !collie_awake && now + self.timings.poll_interval@ < self.deadline ==> (d matches RoundDecision::PollAgain { after }
                && after@ == self.timings.poll_interval@),
            d matches RoundDecision::Awake { settle } ==> settle@ <= self.timings.health_interval@
                && (settle@ == self.timings.health_interval@ || now + settle@ == self.deadline
                || (settle@ == 0 && now >= self.deadline)),
    {
        if collie_awake {
            let health = self.timings.health_interval;
            let left: u128 = if (now as u128) < self.deadline {
                self.deadline - now as u128
            } else {
                0
            };
            if health.as_nanos() <= left {
                return RoundDecision::Awake { settle: health };
            } else {
                return RoundDecision::Awake { settle: TimeSpan::from_nanos(left) };
            }
        }
        let poll = self.timings.poll_interval.as_nanos();
        assert(now + poll < u128::MAX) by (nonlinear_arith)
            requires now <= u64::MAX, poll <= u64::MAX as nat * 1_000_000_000 + 999_999_999;
        if now as u128 + poll >= self.deadline {
            RoundDecision::TimedOut
        } else {
            RoundDecision::PollAgain { after: self.timings.poll_interval }
        }
    }
}

/// A poll that finds Collie awake ends the request after one health-check
/// interval wherever the budget has room for it: the request is reported
/// awake no sooner than the failover can have flipped back to the primary.
pub proof fn lemma_awake_waits_one_health_interval(attempt: WakeAttempt, now: u64, d: RoundDecision)
    requires
        decided_after_poll(attempt, true, now, d),
        now + attempt.timings.health_interval@ <= attempt.deadline,
    ensures
        d matches RoundDecision::Awake { settle } && settle@ == attempt.timings.health_interval@,
{
}

/// A poll that does not find Collie awake is followed by a wait of exactly
/// the configured poll interval, unless that wait would reach the deadline,
/// and only then does the request give up.
pub proof fn lemma_polls_are_one_poll_interval_apart(attempt: WakeAttempt, now: u64, d: RoundDecision)
    requires
        decided_after_poll(attempt, false, now, d),
    ensures
        d is TimedOut <==> now + attempt.timings.poll_interval@ >= attempt.deadline,
        !(d is Awake),
        d matches RoundDecision::PollAgain { after } ==> after@ == attempt.timings.poll_interval@
            && now + after@ < attempt.deadline,
{
}

/// After Collie answers, the request waits the health-check interval, or
/// exactly up to the deadline where less than that is left, and never
/// longer than the interval.
pub proof fn lemma_answer_waits_health_interval_or_up_to_deadline(attempt: WakeAttempt, now: u64, d: RoundDecision)
    requires
        decided_after_poll(attempt, true, now, d),
    ensures
        d matches RoundDecision::Awake { settle } && settle@ <= attempt.timings.health_interval@ && (
        if now + attempt.timings.health_interval@ <= attempt.deadline {
            settle@ == attempt.timings.health_interval@
        } else if now < attempt.deadline {
            now + settle@ == attempt.deadline
        } else {
            settle@ == 0
        }),
{
}

/// The wake budget is the total time a request is held open: a decision
/// taken no later than the deadline ends, whether it waits, reports Collie
/// awake or gives up, no later than the deadline; a wait between polls ends
/// strictly before it, so the next round starts within the budget too.
pub proof fn lemma_decisions_end_within_budget(attempt: WakeAttempt, collie_awake: bool, now: u64, d: RoundDecision)
    requires
        decided_after_poll(attempt, collie_awake, now, d),
        now <= attempt.deadline,
    ensures
        decision_ends_at(d, now) <= attempt.deadline,
        d is PollAgain ==> decision_ends_at(d, now) < attempt.deadline,
{
}

/// A request whose polls never find Collie gives up within the budget: when
/// round `k` starts no sooner than `k` poll intervals after the start, and
/// `k + 1` poll intervals cover the timeout, that round ends `TimedOut`.
/// With a poll interval above zero this bounds the rounds by
/// `timeout / poll_interval + 1`.
pub proof fn lemma_gives_up_after_bounded_rounds(attempt: WakeAttempt, start: u64, k: nat, now: u64)
    requires
        attempt.deadline == start + attempt.timings.timeout@,
        now >= start + k * attempt.timings.poll_interval@,
        (k + 1) * attempt.timings.poll_interval@ >= attempt.timings.timeout@,
    ensures
        forall|d: RoundDecision| decided_after_poll(attempt, false, now, d) ==> d is TimedOut,
{
    let p = attempt.timings.poll_interval@;
    assert((k + 1) * p == k * p + p) by (nonlinear_arith);
}

/// Whether the rate limit lets a packet go at `now`, on a clock read as an
/// integer: as `packet_permitted`, where the time since the last packet
/// counts as zero when the clock reads earlier.
pub open spec fn limit_permits(last_sent: Option<int>, min_interval: nat, now: int) -> bool {
    match last_sent {
        None => true,
        Some(previous) => (if now >= previous {
            now - previous
        } else {
            0
        }) >= min_interval,
    }
}

/// On a clock that fits in a `u64`, `limit_permits` is what
/// `RateLimiter::permits` answers.
pub proof fn lemma_limit_permits_is_the_rate_limit(last_sent: Option<u64>, min_interval: nat, now: u64)
    ensures
        packet_permitted(last_sent, min_interval, now) == limit_permits(
            match last_sent {
                Some(p) => Some(p as int),
                None => None,
            },
            min_interval,
            now as int,
        ),
{
}

/// What a whole wake request does.
pub struct WakeTrace {
    /// When each poll of Collie happened.
    pub poll_times: Seq<int>,
    /// When each magic packet went out.
    pub packets: Seq<int>,
    /// How the request ended and when it returned, where it ended within the
    /// rounds given.
    pub ending: Option<(WakeOutcome, int)>,
}

/// A wake request run round by round, starting at `now`, with polls and
/// sends that take no time: each round sends a packet where the rate limit
/// permits (recording it where the send succeeds), polls, and acts on the
/// decision `after_poll` states. `rounds[i]` gives whether the send of round
/// `i` would succeed and whether its poll finds Collie awake.
pub open spec fn wake_trace(
    attempt: WakeAttempt,
    min_interval: nat,
    last_sent: Option<int>,
    now: int,
    rounds: Seq<(bool, bool)>,
) -> WakeTrace
    decreases rounds.len(),
{
    if rounds.len() == 0 {
        WakeTrace { poll_times: Seq::empty(), packets: Seq::empty(), ending: None }
    } else {
        let (delivered, awake) = rounds[0];
        let sent = limit_permits(last_sent, min_interval, now) && delivered;
        let packets = if sent {
            seq![now]
        } else {
            Seq::empty()
        };
        let last = if sent {
            Some(now)
        } else {
            last_sent
        };
        if awake {
            WakeTrace {
                poll_times: seq![now],
                packets,
                ending: Some((WakeOutcome::Awake, now + settle_nanos(attempt, now))),
            }
        } else if now + attempt.timings.poll_interval@ >= attempt.deadline {
            WakeTrace { poll_times: seq![now], packets, ending: Some((WakeOutcome::TimedOut, now)) }
        } else {
            let rest = wake_trace(
                attempt,
                min_interval,
                last,
                now + attempt.timings.poll_interval@,
                rounds.drop_first(),
            );
            WakeTrace {
                poll_times: seq![now] + rest.poll_times,
                packets: packets + rest.packets,
                ending: rest.ending,
            }
        }
    }
}

/// A failed magic packet never ends, shortens or delays a wake request: two
/// runs whose polls answer alike poll at the same instants and end the same
/// way at the same instant, whichever sends fail and whatever the rate
/// limiter held before.
pub proof fn lemma_send_failures_do_not_change_the_schedule(
    attempt: WakeAttempt,
    min_interval: nat,
    last_a: Option<int>,
    last_b: Option<int>,
    now: int,
    rounds_a: Seq<(bool, bool)>,
    rounds_b: Seq<(bool, bool)>,
)
    requires
        rounds_a.len() == rounds_b.len(),
        forall|i: int| 0 <= i < rounds_a.len() ==> (#[trigger] rounds_a[i]).1 == rounds_b[i].1,
    ensures
        wake_trace(attempt, min_interval, last_a, now, rounds_a).poll_times == wake_trace(
            attempt,
            min_interval,
            last_b,
            now,
            rounds_b,
        ).poll_times,
        wake_trace(attempt, min_interval, last_a, now, rounds_a).ending == wake_trace(
            attempt,
            min_interval,
            last_b,
            now,
            rounds_b,
        ).ending,
    decreases rounds_a.len(),
{
    if rounds_a.len() > 0 {
        assert(rounds_a[0].1 == rounds_b[0].1);
        let (da, _) = rounds_a[0];
        let (db, _) = rounds_b[0];
        let next_a = if limit_permits(last_a, min_interval, now) && da {
            Some(now)
        } else {
            last_a
        };
        let next_b = if limit_permits(last_b, min_interval, now) && db {
            Some(now)
        } else {
            last_b
        };
        let ra = rounds_a.drop_first();
        let rb = rounds_b.drop_first();
        assert forall|i: int| 0 <= i < ra.len() implies (#[trigger] ra[i]).1 == rb[i].1 by {
            assert(ra[i] == rounds_a[i + 1] && rb[i] == rounds_b[i + 1]);
        }
        lemma_send_failures_do_not_change_the_schedule(
            attempt,
            min_interval,
            next_a,
            next_b,
            now + attempt.timings.poll_interval@,
            ra,
            rb,
        );
    }
}

/// A whole wake request that starts within its budget returns within it,
/// however its polls answer and its sends go.
pub proof fn lemma_wake_request_ends_within_budget(
    attempt: WakeAttempt,
    min_interval: nat,
    last_sent: Option<int>,
    now: int,
    rounds: Seq<(bool, bool)>,
)
    requires
        now <= attempt.deadline,
    ensures
        wake_trace(attempt, min_interval, last_sent, now, rounds).ending matches Some((_, at))
            ==> at <= attempt.deadline,
        forall|i: int| 0 <= i < wake_trace(attempt, min_interval, last_sent, now, rounds).poll_times.len()
            ==> #[trigger] wake_trace(attempt, min_interval, last_sent, now, rounds).poll_times[i]
            <= attempt.deadline,
    decreases rounds.len(),
{
    if rounds.len() > 0 {
        let (delivered, awake) = rounds[0];
        let next = if limit_permits(last_sent, min_interval, now) && delivered {
            Some(now)
        } else {
            last_sent
        };
        let later = now + attempt.timings.poll_interval@;
        if !awake && later < attempt.deadline {
            lemma_wake_request_ends_within_budget(attempt, min_interval, next, later, rounds.drop_first());
            let rest = wake_trace(attempt, min_interval, next, later, rounds.drop_first());
            let all = wake_trace(attempt, min_interval, last_sent, now, rounds);
            assert(all.poll_times == seq![now] + rest.poll_times);
            assert forall|i: int| 0 <= i < all.poll_times.len() implies #[trigger] all.poll_times[i]
                <= attempt.deadline by {
                if i > 0 {
                    assert(all.poll_times[i] == rest.poll_times[i - 1]);
                }
            }
        }
    }
}

} // verus!

use std::collections::VecDeque;

use wickbot::dispatcher::{
    cooldown_for, next_step, MessageBroadcast, Step, COOLDOWN_MARGIN_MS, DEFAULT_COOLDOWN_MS,
    REQUEST_COUNT,
};
use wickbot::classify::classify;
use wickbot::outcome::{FatalReason, Outcome, RejectReason};

/// One attempt as a scripted transport sees it: how many polls it stays
/// unfinished, and what it comes to.
struct Attempt {
    channel: i64,
    polls_left: u32,
    outcome: Outcome,
}

/// What a scripted broadcast did.
struct Report {
    turns: usize,
    clock_ms: u64,
    sent: Vec<i64>,
    successes: Vec<i64>,
    removals: Vec<i64>,
    dropped: Vec<(i64, Outcome)>,
    armed: Vec<u64>,
    blocked_turns: usize,
    max_in_flight: usize,
}

const TURN_MS: u64 = 100;

/// Runs a broadcast to its end against a scripted transport, the way a
/// scheduler would: each turn promotes, polls every attempt in flight once,
/// and carries out the steps. `transport(channel, nth)` is asked once for
/// each attempt issued and says after how many polls it finishes and how.
fn drive(channels: Vec<i64>, transport: &mut dyn FnMut(i64, usize) -> (u32, Outcome)) -> Report {
    let mut issued: Vec<(i64, usize)> = Vec::new();
    let mut issue = |channel: i64, transport: &mut dyn FnMut(i64, usize) -> (u32, Outcome)| {
        let nth = issued.iter().filter(|(c, _)| *c == channel).count();
        issued.push((channel, nth));
        let (polls_left, outcome) = transport(channel, nth);
        Attempt { channel, polls_left, outcome }
    };
    let mut report = Report {
        turns: 0,
        clock_ms: 0,
        sent: Vec::new(),
        successes: Vec::new(),
        removals: Vec::new(),
        dropped: Vec::new(),
        armed: Vec::new(),
        blocked_turns: 0,
        max_in_flight: 0,
    };
    let mut broadcast = MessageBroadcast::new(channels.clone(), "token".to_owned(), "hello");
    let mut queued: VecDeque<Option<Attempt>> = channels.iter().map(|_| None).collect();
    let mut flying: Vec<Attempt> = Vec::new();
    let mut deadline: Option<u64> = None;
    loop {
        assert!(report.turns < 10_000, "the broadcast does not end");
        report.turns += 1;
        let elapsed = match deadline {
            Some(at) => report.clock_ms >= at,
            None => false,
        };
        if elapsed {
            deadline = None;
        }
        if deadline.is_some() {
            report.blocked_turns += 1;
        }
        let promoted = broadcast.promote(elapsed);
        for channel in promoted {
            let attempt = match queued.pop_front().expect("a promoted destination was queued") {
                Some(reissued) => reissued,
                None => {
                    report.sent.push(channel);
                    issue(channel, transport)
                }
            };
            assert_eq!(attempt.channel, channel);
            flying.push(attempt);
        }
        let mirror: Vec<i64> = flying.iter().map(|a| a.channel).collect();
        assert_eq!(broadcast.in_flight(), &mirror);
        assert!(broadcast.in_flight().len() <= REQUEST_COUNT);
        report.max_in_flight = report.max_in_flight.max(broadcast.in_flight().len());

        let polls: Vec<Option<Outcome>> = flying
            .iter_mut()
            .map(|a| {
                if a.polls_left == 0 {
                    Some(a.outcome)
                } else {
                    a.polls_left -= 1;
                    None
                }
            })
            .collect();
        let steps = broadcast.drain(&polls);
        assert_eq!(steps.len(), flying.len());
        let finished: Vec<Attempt> = std::mem::take(&mut flying);
        for (attempt, step) in finished.into_iter().zip(steps) {
            match step {
                Step::Wait => flying.push(attempt),
                Step::Discard => {
                    if attempt.outcome == Outcome::Success {
                        report.successes.push(attempt.channel);
                    } else {
                        report.dropped.push((attempt.channel, attempt.outcome));
                    }
                }
                Step::Unsubscribe => report.removals.push(attempt.channel),
                Step::Retry { arm } => {
                    report.sent.push(attempt.channel);
                    queued.push_back(Some(issue(attempt.channel, transport)));
                    if let Some(ms) = arm {
                        assert!(deadline.is_none(), "a second timer was started");
                        deadline = Some(report.clock_ms + ms);
                        report.armed.push(ms);
                    }
                }
            }
        }
        assert_eq!(broadcast.cooldown().is_some(), deadline.is_some());
        let waiting: Vec<i64> = broadcast.pending().clone();
        assert_eq!(waiting.len(), queued.len());
        if broadcast.is_complete() {
            assert!(flying.is_empty() && queued.is_empty());
            return report;
        }
        report.clock_ms += TURN_MS;
    }
}

fn sorted(mut v: Vec<i64>) -> Vec<i64> {
    v.sort();
    v
}

#[test]
fn three_destinations_all_succeed() {
    let report = drive(vec![11, 22, 33], &mut |_, _| (0, classify(200, b"")));
    assert_eq!(report.successes, vec![11, 22, 33]);
    assert!(report.removals.is_empty());
    assert!(report.dropped.is_empty());
    assert!(report.armed.is_empty());
    assert_eq!(report.sent, vec![11, 22, 33]);
    assert_eq!(report.turns, 1);
}

#[test]
fn missing_access_unsubscribes_once() {
    let outcome = classify(403, b"{\"code\":50001}");
    assert_eq!(outcome, Outcome::Fatal { reason: FatalReason::MissingAccess });
    let report = drive(vec![77], &mut |_, _| (1, outcome));
    assert_eq!(report.removals, vec![77]);
    assert!(report.successes.is_empty());
    assert!(report.dropped.is_empty());
    assert_eq!(report.sent, vec![77]);
}

#[test]
fn rate_limited_then_success_waits_for_the_cooldown() {
    let report = drive(vec![5], &mut |_, nth| {
        if nth == 0 {
            (0, classify(429, b"{\"retry_after\": 0.5}"))
        } else {
            (0, classify(200, b""))
        }
    });
    assert_eq!(report.armed, vec![700]);
    assert_eq!(report.successes, vec![5]);
    assert_eq!(report.sent, vec![5, 5]);
    assert!(report.removals.is_empty());
    assert!(report.clock_ms >= 700, "the retry was promoted before the cooldown had elapsed");
    assert_eq!(report.blocked_turns, 6);
}

#[test]
fn rate_limited_without_retry_after_uses_the_default() {
    let report = drive(vec![5], &mut |_, nth| {
        if nth == 0 {
            (0, classify(429, b"{\"message\": \"slow down\"}"))
        } else {
            (0, classify(200, b""))
        }
    });
    assert_eq!(report.armed, vec![1000]);
    assert_eq!(report.armed, vec![DEFAULT_COOLDOWN_MS]);
    assert_eq!(report.successes, vec![5]);
    assert!(report.clock_ms >= 1000);
}

#[test]
fn thirty_five_destinations_fly_thirty_at_a_time() {
    let channels: Vec<i64> = (1..=35).collect();
    let report = drive(channels.clone(), &mut |channel, _| ((channel % 4) as u32 + 1, Outcome::Success));
    assert_eq!(report.max_in_flight, 30);
    assert_eq!(sorted(report.successes), channels);
    assert_eq!(report.sent, channels);
    assert!(report.removals.is_empty());
    assert!(report.dropped.is_empty());
}

#[test]
fn transport_failure_is_dropped_without_retry() {
    let report = drive(vec![8, 9], &mut |channel, _| {
        if channel == 8 {
            (2, Outcome::TransportFailure)
        } else {
            (0, Outcome::Success)
        }
    });
    assert_eq!(report.dropped, vec![(8, Outcome::TransportFailure)]);
    assert_eq!(report.successes, vec![9]);
    assert_eq!(report.sent, vec![8, 9]);
    assert!(report.removals.is_empty());
    assert!(report.armed.is_empty());
}

#[test]
fn empty_broadcast_is_complete_at_once() {
    let mut b = MessageBroadcast::new(Vec::new(), "t".to_owned(), "m");
    assert!(b.is_complete());
    assert_eq!(b.promote(false), Vec::<i64>::new());
    assert_eq!(b.drain(&Vec::new()), Vec::<Step>::new());
    assert!(b.is_complete());
    assert_eq!(b.cooldown(), None);
}

#[test]
fn new_broadcast_has_everything_pending() {
    let b = MessageBroadcast::new(vec![3, 1, 2], "secret".to_owned(), "the message");
    assert_eq!(b.pending(), &vec![3, 1, 2]);
    assert!(b.in_flight().is_empty());
    assert_eq!(b.cooldown(), None);
    assert_eq!(b.content(), "the message");
    assert_eq!(b.token(), "secret");
    assert!(!b.is_complete());
}

#[test]
fn promotion_is_first_come_first_served_and_stops_at_the_window() {
    let channels: Vec<i64> = (100..140).collect();
    let mut b = MessageBroadcast::new(channels.clone(), "t".to_owned(), "m");
    let first = b.promote(false);
    assert_eq!(first, channels[..30].to_vec());
    assert_eq!(b.in_flight(), &channels[..30].to_vec());
    assert_eq!(b.pending(), &channels[30..].to_vec());
    assert_eq!(b.promote(false), Vec::<i64>::new());

    let mut polls: Vec<Option<Outcome>> = vec![None; 30];
    polls[0] = Some(Outcome::Success);
    polls[7] = Some(Outcome::Rejected { reason: RejectReason::Unknown });
    polls[29] = Some(Outcome::TransportFailure);
    let steps = b.drain(&polls);
    assert_eq!(steps.iter().filter(|s| **s == Step::Discard).count(), 3);
    assert_eq!(steps.iter().filter(|s| **s == Step::Wait).count(), 27);
    assert_eq!(b.in_flight().len(), 27);

    let second = b.promote(false);
    assert_eq!(second, vec![130, 131, 132]);
    assert_eq!(b.in_flight().len(), 30);
    assert_eq!(b.in_flight()[27..].to_vec(), vec![130, 131, 132]);
    assert_eq!(b.pending(), &channels[33..].to_vec());
}

#[test]
fn drain_keeps_order_and_requeues_at_the_back() {
    let mut b = MessageBroadcast::new(vec![1, 2, 3, 4, 5], "t".to_owned(), "m");
    let mut small = MessageBroadcast::new(vec![9], "t".to_owned(), "m");
    assert_eq!(small.promote(false), vec![9]);
    assert_eq!(b.promote(false), vec![1, 2, 3, 4, 5]);
    let polls = vec![
        None,
        Some(Outcome::RateLimited { retry_after_ms: 300 }),
        Some(Outcome::Fatal { reason: FatalReason::UnknownDestination }),
        Some(Outcome::RateLimited { retry_after_ms: 9000 }),
        None,
    ];
    let steps = b.drain(&polls);
    assert_eq!(
        steps,
        vec![
            Step::Wait,
            Step::Retry { arm: Some(500) },
            Step::Unsubscribe,
            Step::Retry { arm: None },
            Step::Wait,
        ]
    );
    assert_eq!(b.in_flight(), &vec![1, 5]);
    assert_eq!(b.pending(), &vec![2, 4]);
    assert_eq!(b.cooldown(), Some(500));
}

#[test]
fn cooldown_blocks_promotion_but_not_draining() {
    let mut b = MessageBroadcast::new(vec![1, 2, 3], "t".to_owned(), "m");
    assert_eq!(b.promote(false), vec![1, 2, 3]);
    let steps = b.drain(&vec![Some(Outcome::RateLimited { retry_after_ms: 0 }), None, None]);
    assert_eq!(steps[0], Step::Retry { arm: Some(1000) });
    assert_eq!(b.cooldown(), Some(1000));
    assert_eq!(b.pending(), &vec![1]);

    assert_eq!(b.promote(false), Vec::<i64>::new());
    assert_eq!(b.in_flight(), &vec![2, 3]);
    let steps = b.drain(&vec![Some(Outcome::Success), None]);
    assert_eq!(steps, vec![Step::Discard, Step::Wait]);
    assert_eq!(b.in_flight(), &vec![3]);
    assert_eq!(b.cooldown(), Some(1000));

    assert_eq!(b.promote(true), vec![1]);
    assert_eq!(b.cooldown(), None);
    assert_eq!(b.in_flight(), &vec![3, 1]);
    assert!(b.pending().is_empty());
}

#[test]
fn second_rate_limit_does_not_replace_the_cooldown() {
    let mut b = MessageBroadcast::new(vec![1, 2], "t".to_owned(), "m");
    b.promote(false);
    let steps = b.drain(&vec![Some(Outcome::RateLimited { retry_after_ms: 100 }), None]);
    assert_eq!(steps, vec![Step::Retry { arm: Some(300) }, Step::Wait]);
    let steps = b.drain(&vec![Some(Outcome::RateLimited { retry_after_ms: 60_000 })]);
    assert_eq!(steps, vec![Step::Retry { arm: None }]);
    assert_eq!(b.cooldown(), Some(300));
    assert_eq!(b.pending(), &vec![1, 2]);
}

#[test]
fn missing_or_surplus_polls_are_harmless() {
    let mut b = MessageBroadcast::new(vec![1, 2, 3], "t".to_owned(), "m");
    b.promote(false);
    let steps = b.drain(&vec![Some(Outcome::Success)]);
    assert_eq!(steps, vec![Step::Discard, Step::Wait, Step::Wait]);
    let steps = b.drain(&vec![None, Some(Outcome::Success), Some(Outcome::Success), None]);
    assert_eq!(steps, vec![Step::Wait, Step::Discard]);
    assert_eq!(b.in_flight(), &vec![2]);
}

#[test]
fn timer_report_without_a_cooldown_changes_nothing() {
    let mut b = MessageBroadcast::new(vec![1], "t".to_owned(), "m");
    assert_eq!(b.promote(true), vec![1]);
    assert_eq!(b.cooldown(), None);
}

#[test]
fn completion_is_final() {
    let mut b = MessageBroadcast::new(vec![1], "t".to_owned(), "m");
    b.promote(false);
    b.drain(&vec![Some(Outcome::Success)]);
    assert!(b.is_complete());
    for elapsed in [false, true] {
        assert!(b.promote(elapsed).is_empty());
        assert!(b.is_complete());
        assert!(b.drain(&vec![Some(Outcome::RateLimited { retry_after_ms: 5 })]).is_empty());
        assert!(b.is_complete());
    }
}

#[test]
fn cooldown_formula() {
    assert_eq!(cooldown_for(0), 1000);
    assert_eq!(cooldown_for(1), 201);
    assert_eq!(cooldown_for(500), 700);
    assert_eq!(cooldown_for(800), 1000);
    assert_eq!(cooldown_for(u64::MAX - 200), u64::MAX);
    assert_eq!(cooldown_for(u64::MAX - 201), u64::MAX - 1);
    assert_eq!(cooldown_for(u64::MAX), u64::MAX);
    assert_eq!(COOLDOWN_MARGIN_MS, 200);
}

#[test]
fn each_outcome_has_its_step() {
    for armed in [false, true] {
        assert_eq!(next_step(None, armed), Step::Wait);
        assert_eq!(next_step(Some(Outcome::Success), armed), Step::Discard);
        assert_eq!(next_step(Some(Outcome::TransportFailure), armed), Step::Discard);
        for reason in [RejectReason::Forbidden, RejectReason::NotFound, RejectReason::Unknown] {
            assert_eq!(next_step(Some(Outcome::Rejected { reason }), armed), Step::Discard);
        }
        for reason in [
            FatalReason::MissingAccess,
            FatalReason::MissingPermissions,
            FatalReason::UnknownDestination,
        ] {
            assert_eq!(next_step(Some(Outcome::Fatal { reason }), armed), Step::Unsubscribe);
        }
    }
    assert_eq!(
        next_step(Some(Outcome::RateLimited { retry_after_ms: 40 }), false),
        Step::Retry { arm: Some(240) }
    );
    assert_eq!(
        next_step(Some(Outcome::RateLimited { retry_after_ms: 40 }), true),
        Step::Retry { arm: None }
    );
}

#[test]
fn terminal_outcomes() {
    assert!(Outcome::Success.terminal());
    assert!(Outcome::TransportFailure.terminal());
    assert!(Outcome::Fatal { reason: FatalReason::MissingAccess }.terminal());
    assert!(Outcome::Rejected { reason: RejectReason::NotFound }.terminal());
    assert!(!Outcome::RateLimited { retry_after_ms: 0 }.terminal());
}

#[test]
fn every_destination_ends_exactly_once_in_a_mixed_broadcast() {
    let channels: Vec<i64> = (1..=100).collect();
    let report = drive(channels.clone(), &mut |channel, nth| {
        let latency = (channel % 3) as u32;
        match channel % 10 {
            0 if nth < 2 => (latency, Outcome::RateLimited { retry_after_ms: 250 }),
            1 => (latency, Outcome::Fatal { reason: FatalReason::MissingPermissions }),
            2 => (latency, Outcome::Rejected { reason: RejectReason::Forbidden }),
            3 => (latency, Outcome::TransportFailure),
            _ => (latency, Outcome::Success),
        }
    });
    let mut ended: Vec<i64> = report.successes.clone();
    ended.extend(report.removals.iter());
    ended.extend(report.dropped.iter().map(|(c, _)| *c));
    assert_eq!(sorted(ended), channels);
    assert_eq!(sorted(report.removals.clone()), (1..=100).filter(|c| c % 10 == 1).collect::<Vec<i64>>());
    assert_eq!(report.successes.len(), 70);
    assert_eq!(report.dropped.len(), 20);
    assert!(report.max_in_flight <= 30);
    assert_eq!(report.sent.len(), 120);
    assert!(report.armed.iter().all(|ms| *ms == 450));
    assert!(!report.armed.is_empty());
}

#[test]
fn duplicated_destinations_are_delivered_as_often_as_given() {
    let report = drive(vec![4, 4, 6, 4], &mut |_, _| (1, Outcome::Success));
    assert_eq!(sorted(report.successes), vec![4, 4, 4, 6]);
}

/// A small deterministic generator, so that the mixed runs below are the
/// same every time.
struct Lcg(u64);

impl Lcg {
    fn next(&mut self) -> u64 {
        self.0 = self.0.wrapping_mul(6364136223846793005).wrapping_add(1442695040888963407);
        self.0 >> 33
    }
}

#[test]
fn bookkeeping_holds_under_any_mix_of_events() {
    let mut rng = Lcg(2024);
    for round in 0..200 {
        let count = (rng.next() % 90) as i64;
        let channels: Vec<i64> = (0..count).map(|c| c % 40 + round).collect();
        let mut b = MessageBroadcast::new(channels.clone(), "t".to_owned(), "m");
        let mut ended: Vec<i64> = Vec::new();
        let mut removals: Vec<i64> = Vec::new();
        let mut fatal: Vec<i64> = Vec::new();
        let mut started = 0usize;
        let mut fired = 0usize;
        for _ in 0..60 {
            if rng.next() % 3 == 0 {
                let elapsed = rng.next() % 2 == 0;
                let was_armed = b.cooldown().is_some();
                let before_pending = b.pending().clone();
                let promoted = b.promote(elapsed);
                if elapsed && was_armed {
                    fired += 1;
                }
                if was_armed && !elapsed {
                    assert!(promoted.is_empty());
                }
                assert_eq!(promoted[..], before_pending[..promoted.len()]);
            } else {
                let flying = b.in_flight().clone();
                let was_armed = b.cooldown().is_some();
                let polls: Vec<Option<Outcome>> = (0..flying.len() + (rng.next() % 3) as usize)
                    .map(|_| match rng.next() % 8 {
                        0 | 1 | 2 => None,
                        3 => Some(Outcome::RateLimited { retry_after_ms: rng.next() % 3 * 250 }),
                        4 => Some(Outcome::Fatal { reason: FatalReason::MissingAccess }),
                        5 => Some(Outcome::Rejected { reason: RejectReason::NotFound }),
                        6 => Some(Outcome::TransportFailure),
                        _ => Some(Outcome::Success),
                    })
                    .collect();
                let steps = b.drain(&polls);
                assert_eq!(steps.len(), flying.len());
                let mut arms = 0;
                for (i, step) in steps.iter().enumerate() {
                    match step {
                        Step::Wait => assert_eq!(polls[i], None),
                        Step::Discard => ended.push(flying[i]),
                        Step::Unsubscribe => {
                            ended.push(flying[i]);
                            removals.push(flying[i]);
                        }
                        Step::Retry { arm } => {
                            if arm.is_some() {
                                arms += 1;
                            }
                        }
                    }
                    if let Some(Outcome::Fatal { .. }) = polls[i] {
                        fatal.push(flying[i]);
                    }
                }
                assert!(arms <= 1);
                if was_armed {
                    assert_eq!(arms, 0);
                }
                started += arms;
            }
            assert!(b.in_flight().len() <= REQUEST_COUNT);
            let mut all: Vec<i64> = ended.clone();
            all.extend(b.pending().iter());
            all.extend(b.in_flight().iter());
            assert_eq!(sorted(all), sorted(channels.clone()));
            assert_eq!(removals, fatal);
            assert_eq!(started, fired + usize::from(b.cooldown().is_some()));
            assert_eq!(b.is_complete(), b.pending().is_empty() && b.in_flight().is_empty());
        }
    }
}

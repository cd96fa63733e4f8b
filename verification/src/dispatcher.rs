//! The broadcast dispatcher: one message, many destinations, a bounded
//! number of attempts in flight, and one shared cooldown.
//!
//! The dispatcher itself sends nothing and waits for nothing. It is the
//! bookkeeping of a broadcast, advanced in scheduling turns by whoever owns
//! the transport and the clock. A turn has two halves. [`promote`] looks at
//! the cooldown and promotes pending destinations into flight; the caller
//! starts an attempt for each. [`drain`] takes what polling the attempts in
//! flight gave and says, attempt by attempt, what is to happen next.
//!
//! [`promote`]: MessageBroadcast::promote
//! [`drain`]: MessageBroadcast::drain

use crate::outcome::Outcome;
use crate::request::{build_request, DeliveryRequest};
use vstd::multiset::Multiset;
use vstd::prelude::*;

verus! {

/// The admission window: how many attempts may be in flight at once.
pub const REQUEST_COUNT: usize = 30;

/// What is added to the wait that the remote service asks for.
pub const COOLDOWN_MARGIN_MS: u64 = 200;

/// The cooldown where the remote service asks for a wait without saying for
/// how long.
pub const DEFAULT_COOLDOWN_MS: u64 = 1000;

/// A broadcast as a mathematical value.
pub struct BroadcastState {
    /// The destinations that wait for admission, first come first served.
    pub pending: Seq<i64>,
    /// The destinations whose attempt is in flight, in order of admission.
    pub in_flight: Seq<i64>,
    /// For how many milliseconds the cooldown was armed, while it is armed.
    pub cooldown: Option<u64>,
    /// The message that every attempt carries.
    pub message: Seq<char>,
    /// The credential that every attempt carries.
    pub bot_token: Seq<char>,
}

impl BroadcastState {
    /// A broadcast is complete once nothing is pending and nothing in
    /// flight.
    pub open spec fn is_complete(self) -> bool {
        self.pending.len() == 0 && self.in_flight.len() == 0
    }

    /// The window is respected.
    pub open spec fn within_window(self) -> bool {
        self.in_flight.len() <= REQUEST_COUNT
    }

    /// Every destination that is still on its way, with multiplicity.
    pub open spec fn outstanding(self) -> Multiset<i64> {
        self.pending.to_multiset().add(self.in_flight.to_multiset())
    }
}

/// A broadcast at its start: everything pending, nothing in flight, no
/// cooldown.
pub open spec fn initial(channels: Seq<i64>, bot_token: Seq<char>, message: Seq<char>)
    -> BroadcastState {
    BroadcastState {
        pending: channels,
        in_flight: Seq::empty(),
        cooldown: None,
        message,
        bot_token,
    }
}

/// For how long the cooldown is armed after a rate limit: the wait that was
/// asked for plus a margin, or the default where none was stated. The sum
/// stops at `u64::MAX`.
pub open spec fn cooldown_ms(retry_after_ms: u64) -> u64 {
    if retry_after_ms == 0 {
        DEFAULT_COOLDOWN_MS
    } else if retry_after_ms + COOLDOWN_MARGIN_MS > u64::MAX {
        u64::MAX
    } else {
        (retry_after_ms + COOLDOWN_MARGIN_MS) as u64
    }
}

/// Computes [`cooldown_ms`].
pub fn cooldown_for(retry_after_ms: u64) -> (ms: u64)
    ensures
        ms == cooldown_ms(retry_after_ms),
{
    if retry_after_ms == 0 {
        DEFAULT_COOLDOWN_MS
    } else if retry_after_ms > u64::MAX - COOLDOWN_MARGIN_MS {
        u64::MAX
    } else {
        retry_after_ms + COOLDOWN_MARGIN_MS
    }
}

/// How many destinations a turn promotes.
pub open spec fn promoted_count(s: BroadcastState, timer_elapsed: bool) -> nat {
    if s.cooldown is Some && !timer_elapsed {
        0
    } else if s.in_flight.len() >= REQUEST_COUNT {
        0
    } else if s.pending.len() <= REQUEST_COUNT - s.in_flight.len() {
        s.pending.len()
    } else {
        (REQUEST_COUNT - s.in_flight.len()) as nat
    }
}

/// The first half of a turn. A cooldown that has elapsed is cleared; one
/// that has not blocks admission. Otherwise destinations move from the front
/// of the queue into flight until the window is full or the queue empty.
pub open spec fn promote_model(s: BroadcastState, timer_elapsed: bool) -> BroadcastState {
    let n = promoted_count(s, timer_elapsed) as int;
    BroadcastState {
        pending: s.pending.skip(n),
        in_flight: s.in_flight + s.pending.take(n),
        cooldown: if timer_elapsed {
            None
        } else {
            s.cooldown
        },
        ..s
    }
}

/// What is to happen to one attempt in flight after it was polled.
#[derive(Clone, Copy, Debug, PartialEq, Eq, Structural)]
pub enum Step {
    /// The attempt has not finished; it stays in flight.
    Wait,
    /// The attempt has ended for good and is dropped.
    Discard,
    /// The attempt has ended for good, and its destination is to be removed
    /// from the subscriber store.
    Unsubscribe,
    /// The attempt is to be issued again and its destination goes to the back
    /// of the queue. With `arm`, the cooldown timer is to be started for so
    /// many milliseconds.
    Retry { arm: Option<u64> },
}

/// What polling the attempt at position `i` gave; an attempt for which the
/// caller reports nothing has not finished.
pub open spec fn poll_at(polls: Seq<Option<Outcome>>, i: int) -> Option<Outcome> {
    if 0 <= i < polls.len() {
        polls[i]
    } else {
        None
    }
}

/// The step that follows from one poll, given whether the cooldown is armed
/// at that moment.
pub open spec fn step_of(poll: Option<Outcome>, armed: bool) -> Step {
    match poll {
        None => Step::Wait,
        Some(Outcome::RateLimited { retry_after_ms }) => Step::Retry {
            arm: if armed {
                None
            } else {
                Some(cooldown_ms(retry_after_ms))
            },
        },
        Some(Outcome::Fatal { .. }) => Step::Unsubscribe,
        Some(_) => Step::Discard,
    }
}

/// Computes [`step_of`].
pub fn next_step(poll: Option<Outcome>, armed: bool) -> (step: Step)
    ensures
        step == step_of(poll, armed),
{
    match poll {
        None => Step::Wait,
        Some(Outcome::RateLimited { retry_after_ms }) => {
            if armed {
                Step::Retry { arm: None }
            } else {
                Step::Retry { arm: Some(cooldown_for(retry_after_ms)) }
            }
        },
        Some(Outcome::Fatal { .. }) => Step::Unsubscribe,
        Some(_) => Step::Discard,
    }
}

/// How far the second half of a turn has come.
pub struct Progress {
    /// The destinations that stay in flight.
    pub kept: Seq<i64>,
    /// The destinations that go back to the queue.
    pub requeued: Seq<i64>,
    /// The cooldown as it stands.
    pub cooldown: Option<u64>,
    /// One step for each attempt looked at.
    pub steps: Seq<Step>,
}

/// The second half of a turn after the first `n` attempts in flight have
/// been looked at, in order of admission.
pub open spec fn settle(s: BroadcastState, polls: Seq<Option<Outcome>>, n: nat) -> Progress
    decreases n,
{
    if n == 0 {
        Progress {
            kept: Seq::empty(),
            requeued: Seq::empty(),
            cooldown: s.cooldown,
            steps: Seq::empty(),
        }
    } else {
        let before = settle(s, polls, (n - 1) as nat);
        let channel = s.in_flight[n - 1];
        let step = step_of(poll_at(polls, n - 1), before.cooldown is Some);
        Progress {
            kept: if step is Wait {
                before.kept.push(channel)
            } else {
                before.kept
            },
            requeued: if step is Retry {
                before.requeued.push(channel)
            } else {
                before.requeued
            },
            cooldown: match step {
                Step::Retry { arm: Some(ms) } => Some(ms),
                _ => before.cooldown,
            },
            steps: before.steps.push(step),
        }
    }
}

/// The steps that the second half of a turn hands out, one for each attempt
/// in flight.
pub open spec fn drain_steps(s: BroadcastState, polls: Seq<Option<Outcome>>) -> Seq<Step> {
    settle(s, polls, s.in_flight.len()).steps
}

/// The second half of a turn. Attempts that have not finished stay in
/// flight; rate-limited ones go to the back of the queue, and the first of
/// them arms the cooldown unless it is armed already; all others leave the
/// broadcast.
pub open spec fn drain_model(s: BroadcastState, polls: Seq<Option<Outcome>>) -> BroadcastState {
    let done = settle(s, polls, s.in_flight.len());
    BroadcastState {
        pending: s.pending + done.requeued,
        in_flight: done.kept,
        cooldown: done.cooldown,
        ..s
    }
}

/// The bookkeeping of one broadcast.
pub struct MessageBroadcast {
    total_requests: Vec<i64>,
    ongoing_requests: Vec<i64>,
    bot_token: String,
    message_content: String,
    timer: Option<u64>,
}

impl View for MessageBroadcast {
    type V = BroadcastState;

    closed spec fn view(&self) -> BroadcastState {
        BroadcastState {
            pending: self.total_requests@,
            in_flight: self.ongoing_requests@,
            cooldown: self.timer,
            message: self.message_content@,
            bot_token: self.bot_token@,
        }
    }
}

impl MessageBroadcast {
    #[verifier::type_invariant]
    spec fn window_respected(&self) -> bool {
        self.ongoing_requests.len() <= REQUEST_COUNT
    }

    /// Starts a broadcast of `message_content` to `channels`.
    pub fn new(channels: Vec<i64>, bot_token: String, message_content: &str) -> (b: Self)
        ensures
            b@ == initial(channels@, bot_token@, message_content@),
    {
        Self {
            total_requests: channels,
            ongoing_requests: Vec::new(),
            bot_token,
            message_content: String::from_str(message_content),
            timer: None,
        }
    }

    /// The destinations that wait for admission.
    pub fn pending(&self) -> (r: &Vec<i64>)
        ensures
            r@ == self@.pending,
    {
        &self.total_requests
    }

    /// The destinations whose attempt is in flight. There are never more
    /// than [`REQUEST_COUNT`] of them.
    pub fn in_flight(&self) -> (r: &Vec<i64>)
        ensures
            r@ == self@.in_flight,
            r@.len() <= REQUEST_COUNT,
    {
        proof {
            use_type_invariant(self);
        }
        &self.ongoing_requests
    }

    /// For how many milliseconds the cooldown was armed, while it is armed.
    pub fn cooldown(&self) -> (r: Option<u64>)
        ensures
            r == self@.cooldown,
    {
        self.timer
    }

    /// The message of this broadcast.
    pub fn content(&self) -> (r: &str)
        ensures
            r@ == self@.message,
    {
        self.message_content.as_str()
    }

    /// The credential of this broadcast.
    pub fn token(&self) -> (r: &str)
        ensures
            r@ == self@.bot_token,
    {
        self.bot_token.as_str()
    }

    /// The request that delivers this broadcast's message to `channel_id`.
    pub fn request_for(&self, channel_id: i64) -> (r: DeliveryRequest)
        ensures
            r.delivers(self@.bot_token, self@.message, channel_id),
    {
        build_request(self.bot_token.as_str(), self.message_content.as_str(), channel_id)
    }

    /// Whether every destination has reached a terminal state.
    pub fn is_complete(&self) -> (done: bool)
        ensures
            done == self@.is_complete(),
    {
        self.ongoing_requests.len() == 0 && self.total_requests.len() == 0
    }

    /// The first half of a turn. `timer_elapsed` says whether the cooldown
    /// timer has fired. Returns the destinations that were promoted, in
    /// order: for each of them the caller starts an attempt.
    pub fn promote(&mut self, timer_elapsed: bool) -> (promoted: Vec<i64>)
        ensures
            final(self)@ == promote_model(old(self)@, timer_elapsed),
            promoted@ == old(self)@.pending.take(promoted_count(old(self)@, timer_elapsed) as int),
            final(self)@.within_window(),
    {
        proof {
            use_type_invariant(&*self);
        }
        let ghost s0 = self@;
        let blocked: bool = self.timer.is_some() && !timer_elapsed;
        if timer_elapsed {
            self.timer = None;
        }
        let waiting: usize = self.total_requests.len();
        let flying: usize = self.ongoing_requests.len();
        let count: usize = if blocked || flying >= REQUEST_COUNT {
            0
        } else if waiting <= REQUEST_COUNT - flying {
            waiting
        } else {
            REQUEST_COUNT - flying
        };
        let mut promoted: Vec<i64> = Vec::new();
        if count > 0 {
            let mut flight: Vec<i64> = Vec::new();
            let mut rest: Vec<i64> = Vec::new();
            copy_range(&self.ongoing_requests, 0, flying, &mut flight);
            copy_range(&self.total_requests, 0, count, &mut flight);
            copy_range(&self.total_requests, 0, count, &mut promoted);
            copy_range(&self.total_requests, count, waiting, &mut rest);
            assert(s0.in_flight.subrange(0, flying as int) =~= s0.in_flight);
            self.ongoing_requests = flight;
            self.total_requests = rest;
        }
        assert(self@.pending =~= s0.pending.skip(count as int));
        assert(self@.in_flight =~= s0.in_flight + s0.pending.take(count as int));
        assert(promoted@ =~= s0.pending.take(count as int));
        promoted
    }

    /// The second half of a turn. `polls` holds, for each attempt in flight
    /// and in the same order, what polling it gave: `None` where it has not
    /// finished, else its outcome. Returns one step for each attempt in
    /// flight, in the same order, for the caller to carry out.
    pub fn drain(&mut self, polls: &Vec<Option<Outcome>>) -> (steps: Vec<Step>)
        ensures
            final(self)@ == drain_model(old(self)@, polls@),
            steps@ == drain_steps(old(self)@, polls@),
            steps@.len() == old(self)@.in_flight.len(),
            final(self)@.within_window(),
    {
        proof {
            use_type_invariant(&*self);
        }
        let ghost s0 = self@;
        let flying: usize = self.ongoing_requests.len();
        let mut kept: Vec<i64> = Vec::new();
        let mut requeued: Vec<i64> = Vec::new();
        let mut steps: Vec<Step> = Vec::new();
        let mut timer: Option<u64> = self.timer;
        let mut i: usize = 0;
        while i < flying
            invariant
                i <= flying == s0.in_flight.len(),
                self.ongoing_requests@ == s0.in_flight,
                kept@ == settle(s0, polls@, i as nat).kept,
                requeued@ == settle(s0, polls@, i as nat).requeued,
                timer == settle(s0, polls@, i as nat).cooldown,
                steps@ == settle(s0, polls@, i as nat).steps,
                kept@.len() <= i,
                steps@.len() == i,
            decreases flying - i,
        {
            let channel: i64 = self.ongoing_requests[i];
            let poll: Option<Outcome> = if i < polls.len() {
                polls[i]
            } else {
                None
            };
            let step: Step = next_step(poll, timer.is_some());
            match step {
                Step::Wait => {
                    kept.push(channel);
                },
                Step::Retry { arm } => {
                    requeued.push(channel);
                    if arm.is_some() {
                        timer = arm;
                    }
                },
                _ => {},
            }
            steps.push(step);
            i = i + 1;
        }
        self.ongoing_requests = kept;
        self.timer = timer;
        if requeued.len() > 0 {
            let mut queue: Vec<i64> = Vec::new();
            copy_range(&self.total_requests, 0, self.total_requests.len(), &mut queue);
            copy_range(&requeued, 0, requeued.len(), &mut queue);
            assert(queue@ =~= s0.pending + requeued@);
            self.total_requests = queue;
        } else {
            assert(s0.pending + requeued@ =~= s0.pending);
        }
        steps
    }
}

/// Appends `v[from..to]` to `into`.
fn copy_range(v: &Vec<i64>, from: usize, to: usize, into: &mut Vec<i64>)
    requires
        from <= to <= v.len(),
    ensures
        final(into)@ == old(into)@ + v@.subrange(from as int, to as int),
{
    let mut i: usize = from;
    while i < to
        invariant
            from <= i <= to <= v.len(),
            into@ == old(into)@ + v@.subrange(from as int, i as int),
        decreases to - i,
    {
        into.push(v[i]);
        i = i + 1;
    }
}

} // verus!

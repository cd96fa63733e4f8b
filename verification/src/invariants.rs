//! What holds of every broadcast, whatever the transport answers and in
//! whatever order the two halves of a turn are called.
//!
//! A broadcast is followed through a sequence of events. The theorems here
//! speak of the state after any such sequence, and of what the dispatcher
//! has handed out on the way: the final outcomes it recorded, the removals
//! from the subscriber store it asked for, and the cooldown timers it had
//! started.

use crate::dispatcher::{
    drain_model, initial, poll_at, promote_model, promoted_count, settle, step_of, BroadcastState,
    Step,
};
use crate::outcome::Outcome;
use vstd::prelude::*;
use vstd::multiset::{lemma_multiset_empty_len, Multiset};
use vstd::seq_lib::{lemma_multiset_commutative, to_multiset_build, to_multiset_len};

verus! {

/// One call on the dispatcher.
pub enum Event {
    /// The first half of a turn.
    Promote { timer_elapsed: bool },
    /// The second half of a turn.
    Drain { polls: Seq<Option<Outcome>> },
}

/// The state after one event.
pub open spec fn apply(s: BroadcastState, e: Event) -> BroadcastState {
    match e {
        Event::Promote { timer_elapsed } => promote_model(s, timer_elapsed),
        Event::Drain { polls } => drain_model(s, polls),
    }
}

/// The state after a sequence of events.
pub open spec fn run(s: BroadcastState, events: Seq<Event>) -> BroadcastState
    decreases events.len(),
{
    if events.len() == 0 {
        s
    } else {
        apply(run(s, events.drop_last()), events.last())
    }
}

/// A destination together with the outcome that ended its last attempt.
pub struct Record {
    pub channel: i64,
    pub outcome: Outcome,
}

/// The final outcomes among the first `n` attempts in flight: one record
/// for each attempt that finished with a terminal outcome, in order.
pub open spec fn settled_records(s: BroadcastState, polls: Seq<Option<Outcome>>, n: nat) -> Seq<
    Record,
>
    decreases n,
{
    if n == 0 {
        Seq::empty()
    } else {
        let before = settled_records(s, polls, (n - 1) as nat);
        match poll_at(polls, n - 1) {
            Some(outcome) => if outcome.is_terminal() {
                before.push(Record { channel: s.in_flight[n - 1], outcome })
            } else {
                before
            },
            None => before,
        }
    }
}

/// The final outcomes that one event records.
pub open spec fn event_records(s: BroadcastState, e: Event) -> Seq<Record> {
    match e {
        Event::Promote { .. } => Seq::empty(),
        Event::Drain { polls } => settled_records(s, polls, s.in_flight.len()),
    }
}

/// Every final outcome recorded in the course of `events`, in order.
pub open spec fn records(s: BroadcastState, events: Seq<Event>) -> Seq<Record>
    decreases events.len(),
{
    if events.len() == 0 {
        Seq::empty()
    } else {
        records(s, events.drop_last()) + event_records(
            run(s, events.drop_last()),
            events.last(),
        )
    }
}

/// The destinations of a sequence of records, in order.
pub open spec fn channels_of(rs: Seq<Record>) -> Seq<i64>
    decreases rs.len(),
{
    if rs.len() == 0 {
        Seq::empty()
    } else {
        channels_of(rs.drop_last()).push(rs.last().channel)
    }
}

/// The destinations of those records whose outcome is fatal, in order.
pub open spec fn fatal_channels(rs: Seq<Record>) -> Seq<i64>
    decreases rs.len(),
{
    if rs.len() == 0 {
        Seq::empty()
    } else if rs.last().outcome is Fatal {
        fatal_channels(rs.drop_last()).push(rs.last().channel)
    } else {
        fatal_channels(rs.drop_last())
    }
}

/// The destinations for which the first `n` steps of a drain ask a removal
/// from the subscriber store, in order.
pub open spec fn settled_removals(s: BroadcastState, polls: Seq<Option<Outcome>>, n: nat) -> Seq<
    i64,
>
    decreases n,
{
    if n == 0 {
        Seq::empty()
    } else {
        let before = settled_removals(s, polls, (n - 1) as nat);
        if settle(s, polls, n).steps[n - 1] is Unsubscribe {
            before.push(s.in_flight[n - 1])
        } else {
            before
        }
    }
}

/// Every removal from the subscriber store asked for in the course of
/// `events`, in order.
pub open spec fn removals(s: BroadcastState, events: Seq<Event>) -> Seq<i64>
    decreases events.len(),
{
    if events.len() == 0 {
        Seq::empty()
    } else {
        let before = run(s, events.drop_last());
        removals(s, events.drop_last()) + match events.last() {
            Event::Promote { .. } => Seq::empty(),
            Event::Drain { polls } => settled_removals(before, polls, before.in_flight.len()),
        }
    }
}

/// How many of the steps start the cooldown timer.
pub open spec fn arming_steps(steps: Seq<Step>) -> nat
    decreases steps.len(),
{
    if steps.len() == 0 {
        0
    } else {
        arming_steps(steps.drop_last()) + match steps.last() {
            Step::Retry { arm: Some(_) } => 1nat,
            _ => 0nat,
        }
    }
}

/// How many cooldown timers run in this state: one or none.
pub open spec fn armed(s: BroadcastState) -> nat {
    if s.cooldown is Some {
        1
    } else {
        0
    }
}

/// How many cooldown timers were started in the course of `events`.
pub open spec fn timers_started(s: BroadcastState, events: Seq<Event>) -> nat
    decreases events.len(),
{
    if events.len() == 0 {
        0
    } else {
        let before = run(s, events.drop_last());
        timers_started(s, events.drop_last()) + match events.last() {
            Event::Promote { .. } => 0nat,
            Event::Drain { polls } => arming_steps(
                settle(before, polls, before.in_flight.len()).steps,
            ),
        }
    }
}

/// How many cooldown timers were seen to have fired in the course of
/// `events`.
pub open spec fn timers_fired(s: BroadcastState, events: Seq<Event>) -> nat
    decreases events.len(),
{
    if events.len() == 0 {
        0
    } else {
        let before = run(s, events.drop_last());
        timers_fired(s, events.drop_last()) + match events.last() {
            Event::Promote { timer_elapsed } => if timer_elapsed && before.cooldown is Some {
                1nat
            } else {
                0nat
            },
            Event::Drain { .. } => 0nat,
        }
    }
}

/// Adding the destinations of an empty sequence adds nothing.
proof fn lemma_add_nothing(m: Multiset<i64>)
    ensures
        m.add(Seq::<i64>::empty().to_multiset()) == m,
        Seq::<i64>::empty().to_multiset() == Multiset::<i64>::empty(),
{
    to_multiset_len(Seq::<i64>::empty());
    lemma_multiset_empty_len(Seq::<i64>::empty().to_multiset());
    assert(m.add(Multiset::<i64>::empty()) =~= m);
}

proof fn lemma_channels_of_push(rs: Seq<Record>, r: Record)
    ensures
        channels_of(rs.push(r)) == channels_of(rs).push(r.channel),
{
    assert(rs.push(r).drop_last() =~= rs);
}

proof fn lemma_channels_of_concat(a: Seq<Record>, b: Seq<Record>)
    ensures
        channels_of(a + b) == channels_of(a) + channels_of(b),
    decreases b.len(),
{
    if b.len() == 0 {
        assert(a + b =~= a);
        assert(channels_of(a) + channels_of(b) =~= channels_of(a));
    } else {
        lemma_channels_of_concat(a, b.drop_last());
        assert((a + b).drop_last() =~= a + b.drop_last());
        assert(channels_of(a) + channels_of(b) =~= (channels_of(a) + channels_of(
            b.drop_last(),
        )).push(b.last().channel));
    }
}

proof fn lemma_fatal_channels_concat(a: Seq<Record>, b: Seq<Record>)
    ensures
        fatal_channels(a + b) == fatal_channels(a) + fatal_channels(b),
    decreases b.len(),
{
    if b.len() == 0 {
        assert(a + b =~= a);
        assert(fatal_channels(a) + fatal_channels(b) =~= fatal_channels(a));
    } else {
        lemma_fatal_channels_concat(a, b.drop_last());
        assert((a + b).drop_last() =~= a + b.drop_last());
        if b.last().outcome is Fatal {
            assert(fatal_channels(a) + fatal_channels(b) =~= (fatal_channels(a) + fatal_channels(
                b.drop_last(),
            )).push(b.last().channel));
        }
    }
}

/// Within one drain every attempt in flight goes exactly one way: it stays
/// in flight, goes back to the queue, or leaves with a final outcome.
pub proof fn lemma_drain_partitions(s: BroadcastState, polls: Seq<Option<Outcome>>, n: nat)
    requires
        n <= s.in_flight.len(),
    ensures
        s.in_flight.take(n as int).to_multiset() == settle(s, polls, n).kept.to_multiset().add(
            settle(s, polls, n).requeued.to_multiset(),
        ).add(channels_of(settled_records(s, polls, n)).to_multiset()),
        settle(s, polls, n).kept.len() <= n,
        settle(s, polls, n).steps.len() == n,
        forall|i: int|
            0 <= i < settled_records(s, polls, n).len() ==> (#[trigger] settled_records(
                s,
                polls,
                n,
            )[i]).outcome.is_terminal(),
    decreases n,
{
    if n == 0 {
        assert(s.in_flight.take(0) =~= Seq::<i64>::empty());
        lemma_add_nothing(Seq::<i64>::empty().to_multiset());
    } else {
        let m = (n - 1) as nat;
        lemma_drain_partitions(s, polls, m);
        let before = settle(s, polls, m);
        let now = settle(s, polls, n);
        let channel = s.in_flight[n - 1];
        assert(s.in_flight.take(n as int) =~= s.in_flight.take(m as int).push(channel));
        to_multiset_build(s.in_flight.take(m as int), channel);
        to_multiset_build(before.kept, channel);
        to_multiset_build(before.requeued, channel);
        let recs = settled_records(s, polls, m);
        match poll_at(polls, n - 1) {
            Some(outcome) => {
                if outcome.is_terminal() {
                    let r = Record { channel, outcome };
                    lemma_channels_of_push(recs, r);
                    to_multiset_build(channels_of(recs), channel);
                }
            },
            None => {},
        }
        assert(s.in_flight.take(n as int).to_multiset() =~= now.kept.to_multiset().add(
            now.requeued.to_multiset(),
        ).add(channels_of(settled_records(s, polls, n)).to_multiset()));
    }
}

/// Each attempt in flight gets exactly one step, and that step follows from
/// its own poll and from whether the cooldown was armed when its turn came:
/// a removal from the store is asked for an attempt if and only if it
/// ended fatally.
pub proof fn lemma_each_attempt_gets_its_step(
    s: BroadcastState,
    polls: Seq<Option<Outcome>>,
    n: nat,
    i: int,
)
    requires
        0 <= i < n,
    ensures
        settle(s, polls, n).steps.len() == n,
        settle(s, polls, n).steps[i] == step_of(
            poll_at(polls, i),
            settle(s, polls, i as nat).cooldown is Some,
        ),
        settle(s, polls, n).steps[i] is Unsubscribe <==> (poll_at(polls, i) matches Some(
            outcome,
        ) && outcome is Fatal),
    decreases n,
{
    lemma_steps_len(s, polls, n);
    lemma_steps_len(s, polls, (n - 1) as nat);
    if i < n - 1 {
        lemma_each_attempt_gets_its_step(s, polls, (n - 1) as nat, i);
    }
}

proof fn lemma_steps_len(s: BroadcastState, polls: Seq<Option<Outcome>>, n: nat)
    ensures
        settle(s, polls, n).steps.len() == n,
    decreases n,
{
    if n > 0 {
        lemma_steps_len(s, polls, (n - 1) as nat);
    }
}

/// The removals that a drain asks for are those of the attempts that ended
/// fatally, one for one and in the same order.
pub proof fn lemma_drain_removals(s: BroadcastState, polls: Seq<Option<Outcome>>, n: nat)
    requires
        n <= s.in_flight.len(),
    ensures
        settled_removals(s, polls, n) == fatal_channels(settled_records(s, polls, n)),
    decreases n,
{
    if n > 0 {
        let m = (n - 1) as nat;
        lemma_drain_removals(s, polls, m);
        lemma_drain_partitions(s, polls, m);
        let recs = settled_records(s, polls, m);
        match poll_at(polls, n - 1) {
            Some(outcome) => {
                if outcome.is_terminal() {
                    let r = Record { channel: s.in_flight[n - 1], outcome };
                    assert(recs.push(r).drop_last() =~= recs);
                }
            },
            None => {},
        }
    }
}

/// A drain starts the cooldown timer at most once, and only where none is
/// armed; an armed cooldown comes out of a drain as it went in.
pub proof fn lemma_drain_arms_once(s: BroadcastState, polls: Seq<Option<Outcome>>, n: nat)
    ensures
        s.cooldown is Some ==> settle(s, polls, n).cooldown == s.cooldown,
        s.cooldown is Some ==> arming_steps(settle(s, polls, n).steps) == 0,
        s.cooldown is None && settle(s, polls, n).cooldown is Some ==> arming_steps(
            settle(s, polls, n).steps,
        ) == 1,
        s.cooldown is None && settle(s, polls, n).cooldown is None ==> arming_steps(
            settle(s, polls, n).steps,
        ) == 0,
    decreases n,
{
    if n > 0 {
        let m = (n - 1) as nat;
        lemma_drain_arms_once(s, polls, m);
        let before = settle(s, polls, m);
        let step = step_of(poll_at(polls, n - 1), before.cooldown is Some);
        assert(before.steps.push(step).drop_last() =~= before.steps);
    }
}

/// The window holds after every event.
pub proof fn lemma_apply_keeps_window(s: BroadcastState, e: Event)
    requires
        s.within_window(),
    ensures
        apply(s, e).within_window(),
{
    match e {
        Event::Promote { timer_elapsed } => {},
        Event::Drain { polls } => {
            lemma_drain_partitions(s, polls, s.in_flight.len());
        },
    }
}

/// No event loses or invents a destination: what was outstanding before is
/// outstanding after or has been recorded with a final outcome.
pub proof fn lemma_apply_accounts(s: BroadcastState, e: Event)
    ensures
        s.outstanding() == apply(s, e).outstanding().add(
            channels_of(event_records(s, e)).to_multiset(),
        ),
{
    match e {
        Event::Promote { timer_elapsed } => {
            let n = promoted_count(s, timer_elapsed) as int;
            let t = apply(s, e);
            lemma_multiset_commutative(s.in_flight, s.pending.take(n));
            lemma_multiset_commutative(s.pending.take(n), s.pending.skip(n));
            assert(s.pending.take(n) + s.pending.skip(n) =~= s.pending);
            lemma_add_nothing(t.outstanding());
            assert(s.outstanding() =~= t.outstanding());
        },
        Event::Drain { polls } => {
            let n = s.in_flight.len();
            lemma_drain_partitions(s, polls, n);
            assert(s.in_flight.take(n as int) =~= s.in_flight);
            let done = settle(s, polls, n);
            lemma_multiset_commutative(s.pending, done.requeued);
            assert(s.outstanding() =~= apply(s, e).outstanding().add(
                channels_of(event_records(s, e)).to_multiset(),
            ));
        },
    }
}

/// The window, once respected, is respected after any sequence of events.
pub proof fn lemma_run_keeps_window(s: BroadcastState, events: Seq<Event>)
    requires
        s.within_window(),
    ensures
        run(s, events).within_window(),
    decreases events.len(),
{
    if events.len() > 0 {
        lemma_run_keeps_window(s, events.drop_last());
        lemma_apply_keeps_window(run(s, events.drop_last()), events.last());
    }
}

/// In every broadcast, at every observation point, at most
/// [`REQUEST_COUNT`] attempts are in flight.
///
/// [`REQUEST_COUNT`]: crate::dispatcher::REQUEST_COUNT
pub proof fn theorem_window_is_never_exceeded(
    channels: Seq<i64>,
    bot_token: Seq<char>,
    message: Seq<char>,
    events: Seq<Event>,
)
    ensures
        run(initial(channels, bot_token, message), events).within_window(),
{
    lemma_run_keeps_window(initial(channels, bot_token, message), events);
}

/// Every destination given to a broadcast is, at every observation point,
/// either still outstanding (pending or in flight) or recorded with exactly
/// one final outcome, which is a success, a fatal error, a rejection or a
/// transport failure. Destinations are counted with multiplicity.
pub proof fn theorem_every_destination_is_accounted_for(s: BroadcastState, events: Seq<Event>)
    ensures
        s.outstanding() == run(s, events).outstanding().add(
            channels_of(records(s, events)).to_multiset(),
        ),
        forall|i: int|
            0 <= i < records(s, events).len() ==> (#[trigger] records(
                s,
                events,
            )[i]).outcome.is_terminal(),
    decreases events.len(),
{
    if events.len() == 0 {
        lemma_add_nothing(s.outstanding());
    } else {
        let earlier = events.drop_last();
        let before = run(s, earlier);
        theorem_every_destination_is_accounted_for(s, earlier);
        lemma_apply_accounts(before, events.last());
        lemma_channels_of_concat(records(s, earlier), event_records(before, events.last()));
        lemma_multiset_commutative(
            channels_of(records(s, earlier)),
            channels_of(event_records(before, events.last())),
        );
        assert(s.outstanding() =~= run(s, events).outstanding().add(
            channels_of(records(s, events)).to_multiset(),
        ));
        match events.last() {
            Event::Promote { .. } => {},
            Event::Drain { polls } => {
                lemma_drain_partitions(before, polls, before.in_flight.len());
            },
        }
    }
}

/// Once a broadcast is complete, the destinations it was started with are
/// exactly those recorded with a final outcome, each as often as it was
/// given. A broadcast that never completes is one that is rate-limited
/// again and again.
pub proof fn theorem_complete_means_all_recorded(
    channels: Seq<i64>,
    bot_token: Seq<char>,
    message: Seq<char>,
    events: Seq<Event>,
)
    requires
        run(initial(channels, bot_token, message), events).is_complete(),
    ensures
        channels.to_multiset() == channels_of(
            records(initial(channels, bot_token, message), events),
        ).to_multiset(),
{
    let s = initial(channels, bot_token, message);
    let t = run(s, events);
    theorem_every_destination_is_accounted_for(s, events);
    assert(t.pending =~= Seq::<i64>::empty());
    assert(t.in_flight =~= Seq::<i64>::empty());
    lemma_add_nothing(channels.to_multiset());
    lemma_add_nothing(Seq::<i64>::empty().to_multiset());
    assert(s.outstanding() =~= channels.to_multiset());
    assert(t.outstanding().add(channels_of(records(s, events)).to_multiset()) =~= channels_of(
        records(s, events),
    ).to_multiset());
}

/// A complete broadcast stays complete, whatever is called on it afterwards.
pub proof fn theorem_completion_is_final(s: BroadcastState, events: Seq<Event>)
    requires
        s.is_complete(),
    ensures
        run(s, events).is_complete(),
    decreases events.len(),
{
    if events.len() > 0 {
        theorem_completion_is_final(s, events.drop_last());
        let before = run(s, events.drop_last());
        match events.last() {
            Event::Promote { timer_elapsed } => {},
            Event::Drain { polls } => {
                assert(settle(before, polls, 0).kept.len() == 0);
            },
        }
    }
}

/// Whether each of the first `n` polls reports a final outcome.
pub open spec fn all_final(polls: Seq<Option<Outcome>>, n: nat) -> bool {
    forall|i: int|
        0 <= i < n ==> match #[trigger] poll_at(polls, i) {
            Some(outcome) => outcome.is_terminal(),
            None => false,
        }
}

/// Where every attempt looked at has ended for good, none stays in flight,
/// none goes back to the queue, each is recorded, and the cooldown is not
/// touched.
pub proof fn lemma_final_outcomes_settle_all(
    s: BroadcastState,
    polls: Seq<Option<Outcome>>,
    n: nat,
)
    requires
        all_final(polls, n),
    ensures
        settle(s, polls, n).kept.len() == 0,
        settle(s, polls, n).requeued.len() == 0,
        settle(s, polls, n).cooldown == s.cooldown,
        settled_records(s, polls, n).len() == n,
    decreases n,
{
    if n > 0 {
        lemma_final_outcomes_settle_all(s, polls, (n - 1) as nat);
        assert(poll_at(polls, n - 1) is Some);
    }
}

/// Only attempts that are rate-limited or have not finished hold a
/// broadcast up. A turn in which no cooldown blocks and every attempt in
/// flight ends for good leaves nothing in flight, records each of those
/// attempts, and takes them off what is outstanding; unless the broadcast
/// was complete already, there is at least one.
pub proof fn theorem_unhindered_turn_makes_progress(
    s: BroadcastState,
    timer_elapsed: bool,
    polls: Seq<Option<Outcome>>,
)
    requires
        s.within_window(),
        s.cooldown is None || timer_elapsed,
        all_final(polls, promote_model(s, timer_elapsed).in_flight.len()),
    ensures
        ({
            let mid = promote_model(s, timer_elapsed);
            let end = drain_model(mid, polls);
            &&& end.in_flight.len() == 0
            &&& end.pending == mid.pending
            &&& end.cooldown is None
            &&& settled_records(mid, polls, mid.in_flight.len()).len() == mid.in_flight.len()
            &&& end.pending.len() + mid.in_flight.len() == s.pending.len() + s.in_flight.len()
            &&& !s.is_complete() ==> mid.in_flight.len() > 0
        }),
{
    let mid = promote_model(s, timer_elapsed);
    lemma_final_outcomes_settle_all(mid, polls, mid.in_flight.len());
    assert(mid.pending + Seq::<i64>::empty() =~= mid.pending);
    assert(settle(mid, polls, mid.in_flight.len()).requeued =~= Seq::<i64>::empty());
}

/// The removals from the subscriber store that a broadcast asks for are
/// those of the destinations recorded with a fatal outcome: one removal for
/// each such record, in the same order, and none besides.
pub proof fn theorem_fatal_outcomes_unsubscribe_once(s: BroadcastState, events: Seq<Event>)
    ensures
        removals(s, events) == fatal_channels(records(s, events)),
    decreases events.len(),
{
    if events.len() > 0 {
        let earlier = events.drop_last();
        let before = run(s, earlier);
        theorem_fatal_outcomes_unsubscribe_once(s, earlier);
        lemma_fatal_channels_concat(records(s, earlier), event_records(before, events.last()));
        match events.last() {
            Event::Promote { .. } => {},
            Event::Drain { polls } => {
                lemma_drain_removals(before, polls, before.in_flight.len());
            },
        }
    }
}

/// Cooldown timers are started one at a time: counting the one that may be
/// armed at the outset, the timers started are those that have fired and,
/// where the cooldown is armed, the one that is running. So at most one has
/// not fired yet, and no timer is started while one is armed.
pub proof fn theorem_one_cooldown_at_a_time(s: BroadcastState, events: Seq<Event>)
    ensures
        timers_started(s, events) + armed(s) == timers_fired(s, events) + armed(run(s, events)),
    decreases events.len(),
{
    if events.len() > 0 {
        let earlier = events.drop_last();
        let before = run(s, earlier);
        theorem_one_cooldown_at_a_time(s, earlier);
        match events.last() {
            Event::Promote { .. } => {},
            Event::Drain { polls } => {
                lemma_drain_arms_once(before, polls, before.in_flight.len());
            },
        }
    }
}

/// Whether every outcome that the event reports is of the kind `p`.
pub open spec fn reports_only(e: Event, p: spec_fn(Outcome) -> bool) -> bool {
    match e {
        Event::Promote { .. } => true,
        Event::Drain { polls } => forall|i: int|
            0 <= i < polls.len() ==> match #[trigger] polls[i] {
                Some(outcome) => p(outcome),
                None => true,
            },
    }
}

proof fn lemma_settled_records_hold_what_was_polled(
    s: BroadcastState,
    polls: Seq<Option<Outcome>>,
    n: nat,
    p: spec_fn(Outcome) -> bool,
)
    requires
        reports_only(Event::Drain { polls }, p),
    ensures
        forall|j: int|
            0 <= j < settled_records(s, polls, n).len() ==> p(
                (#[trigger] settled_records(s, polls, n)[j]).outcome,
            ),
    decreases n,
{
    if n > 0 {
        lemma_settled_records_hold_what_was_polled(s, polls, (n - 1) as nat, p);
        if n - 1 < polls.len() {
            assert(poll_at(polls, n - 1) == polls[n - 1]);
        }
    }
}

/// A broadcast records no outcome that the transport did not report: where
/// every outcome polled is of one kind, so is every outcome recorded. In
/// particular, destinations that all answer with success are all recorded
/// as delivered.
pub proof fn theorem_records_hold_what_was_polled(
    s: BroadcastState,
    events: Seq<Event>,
    p: spec_fn(Outcome) -> bool,
)
    requires
        forall|k: int| 0 <= k < events.len() ==> reports_only(#[trigger] events[k], p),
    ensures
        forall|j: int|
            0 <= j < records(s, events).len() ==> p((#[trigger] records(s, events)[j]).outcome),
    decreases events.len(),
{
    if events.len() > 0 {
        let earlier = events.drop_last();
        let before = run(s, earlier);
        assert forall|k: int| 0 <= k < earlier.len() implies reports_only(
            #[trigger] earlier[k],
            p,
        ) by {
            assert(earlier[k] == events[k]);
        }
        theorem_records_hold_what_was_polled(s, earlier, p);
        assert(reports_only(events[events.len() - 1], p));
        match events.last() {
            Event::Promote { .. } => {},
            Event::Drain { polls } => {
                lemma_settled_records_hold_what_was_polled(
                    before,
                    polls,
                    before.in_flight.len(),
                    p,
                );
            },
        }
    }
}

proof fn lemma_no_fatal_record_no_channel(rs: Seq<Record>)
    requires
        forall|j: int| 0 <= j < rs.len() ==> !((#[trigger] rs[j]).outcome is Fatal),
    ensures
        fatal_channels(rs).len() == 0,
    decreases rs.len(),
{
    if rs.len() > 0 {
        assert(!(rs[rs.len() - 1].outcome is Fatal));
        lemma_no_fatal_record_no_channel(rs.drop_last());
    }
}

/// A broadcast in which no attempt ends fatally asks for no removal from
/// the subscriber store.
pub proof fn theorem_no_fatal_outcome_no_removal(s: BroadcastState, events: Seq<Event>)
    requires
        forall|k: int|
            0 <= k < events.len() ==> reports_only(
                #[trigger] events[k],
                |outcome: Outcome| !(outcome is Fatal),
            ),
    ensures
        removals(s, events).len() == 0,
{
    theorem_records_hold_what_was_polled(s, events, |outcome: Outcome| !(outcome is Fatal));
    theorem_fatal_outcomes_unsubscribe_once(s, events);
    lemma_no_fatal_record_no_channel(records(s, events));
}

} // verus!

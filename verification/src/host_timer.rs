//! The one-shot host timer: what it is armed with, and its life from
//! registration to the single resolution of the wait.
//!
//! The host takes a delay in whole milliseconds as a signed 32-bit number and
//! a callback that it invokes once when the delay is over. Nothing here talks
//! to the host: the decisions are made on plain values, and whoever holds the
//! host's handle carries them out and reports back what happened.
//!
//! A wait is never shortened to fit the host's range and never retried: what
//! cannot be arranged fails for good. A registered timer is never taken back
//! from the host either; a wait that is abandoned leaves it to fire unheard.

use crate::span::{Span, NANOS_PER_MILLI};
use vstd::prelude::*;

verus! {

/// The longest delay, in milliseconds, that the host's timer can be armed
/// with.
pub const MAX_DELAY_MILLIS: i32 = 2_147_483_647;

/// The whole milliseconds in `nanos` nanoseconds.
pub open spec fn whole_millis(nanos: nat) -> nat {
    nanos / (NANOS_PER_MILLI as nat)
}

/// The delay that a timer for a wait of `nanos` nanoseconds is armed with:
/// the whole milliseconds of the wait, or nothing when the host cannot be
/// asked for that many.
pub open spec fn armed_millis(nanos: nat) -> Option<i32> {
    if whole_millis(nanos) <= MAX_DELAY_MILLIS {
        Some(whole_millis(nanos) as i32)
    } else {
        None
    }
}

/// Computes the delay to arm the host's timer with for a wait of `span`.
/// A wait beyond the host's range is refused, never shortened to fit.
pub fn delay_millis(span: &Span) -> (millis: Option<i32>)
    ensures
        millis == armed_millis(span@),
{
    let whole: u128 = span.as_millis();
    if whole <= MAX_DELAY_MILLIS as u128 {
        Some(whole as i32)
    } else {
        None
    }
}

/// Where a timer stands.
#[derive(Clone, Copy, Debug, PartialEq, Eq, Structural)]
pub enum TimerState {
    /// No registration stands: none has been asked for, or the host has
    /// refused it.
    Unregistered,
    /// The registration has been asked for and the host has not refused
    /// it.
    Registered,
    /// The callback has been invoked and the wait is over.
    Fired,
}

/// What happens to a timer.
#[derive(Clone, Copy, Debug, PartialEq, Eq)]
pub enum TimerEvent {
    /// A wait of `span` is asked for.
    Requested { span: Span },
    /// The host refuses the registration.
    Refused,
    /// The host invokes the callback.
    CallbackInvoked,
}

/// What is to be done in answer to an event.
#[derive(Clone, Copy, Debug, PartialEq, Eq, Structural)]
pub enum TimerAction {
    /// Register the callback with the host, to be invoked after `millis`
    /// milliseconds.
    Arm { millis: i32 },
    /// Complete the wait.
    Resolve,
    /// The wait cannot be arranged: fail, and do not try again.
    Abort,
    /// Nothing.
    Ignore,
}

/// The state that follows `state` on `event`, and what is to be done.
pub open spec fn next(state: TimerState, event: TimerEvent) -> (TimerState, TimerAction) {
    match (state, event) {
        (TimerState::Unregistered, TimerEvent::Requested { span }) => match armed_millis(span@) {
            Some(millis) => (TimerState::Registered, TimerAction::Arm { millis }),
            None => (TimerState::Unregistered, TimerAction::Abort),
        },
        (TimerState::Registered, TimerEvent::Refused) => (
            TimerState::Unregistered,
            TimerAction::Abort,
        ),
        (TimerState::Registered, TimerEvent::CallbackInvoked) => (
            TimerState::Fired,
            TimerAction::Resolve,
        ),
        _ => (state, TimerAction::Ignore),
    }
}

/// Takes a timer from `state` through `event`.
pub fn step(state: TimerState, event: TimerEvent) -> (out: (TimerState, TimerAction))
    ensures
        out == next(state, event),
{
    match (state, event) {
        (TimerState::Unregistered, TimerEvent::Requested { span }) => match delay_millis(&span) {
            Some(millis) => (TimerState::Registered, TimerAction::Arm { millis }),
            None => (TimerState::Unregistered, TimerAction::Abort),
        },
        (TimerState::Registered, TimerEvent::Refused) => (
            TimerState::Unregistered,
            TimerAction::Abort,
        ),
        (TimerState::Registered, TimerEvent::CallbackInvoked) => (
            TimerState::Fired,
            TimerAction::Resolve,
        ),
        _ => (state, TimerAction::Ignore),
    }
}

/// The state that a timer is in after `events`, taken in order from `state`.
pub open spec fn run(state: TimerState, events: Seq<TimerEvent>) -> TimerState
    decreases events.len(),
{
    if events.len() == 0 {
        state
    } else {
        run(next(state, events.first()).0, events.drop_first())
    }
}

/// How often the wait is completed while a timer goes through `events`, in
/// order from `state`.
pub open spec fn resolutions(state: TimerState, events: Seq<TimerEvent>) -> nat
    decreases events.len(),
{
    if events.len() == 0 {
        0
    } else {
        let (after, action) = next(state, events.first());
        let now: nat = if action is Resolve { 1 } else { 0 };
        now + resolutions(after, events.drop_first())
    }
}

/// Whether `event` asks for a wait that the host can be asked for.
pub open spec fn accepted(event: TimerEvent) -> bool {
    event matches TimerEvent::Requested { span } && armed_millis(span@) is Some
}

/// Whether the host invokes the callback at `j` without having refused the
/// registration before.
pub open spec fn invoked_unrefused(events: Seq<TimerEvent>, j: int) -> bool {
    &&& 0 <= j < events.len()
    &&& events[j] is CallbackInvoked
    &&& forall|k: int| 0 <= k < j ==> !(#[trigger] events[k] is Refused)
}

/// Whether a wait that the host can be asked for is asked for at `i`, and the
/// host invokes the callback at `j` without having refused the registration
/// in between.
pub open spec fn armed_then_invoked(events: Seq<TimerEvent>, i: int, j: int) -> bool {
    &&& 0 <= i < j < events.len()
    &&& accepted(events[i])
    &&& events[j] is CallbackInvoked
    &&& forall|k: int| i < k < j ==> !(#[trigger] events[k] is Refused)
}

/// Whether `events`, in order from `state`, hold a course that completes the
/// wait: the callback of a registration that the host has not refused.
pub open spec fn completes(state: TimerState, events: Seq<TimerEvent>) -> bool {
    match state {
        TimerState::Unregistered => exists|i: int, j: int| armed_then_invoked(events, i, j),
        TimerState::Registered => {
            ||| exists|j: int| invoked_unrefused(events, j)
            ||| exists|i: int, j: int| armed_then_invoked(events, i, j)
        },
        TimerState::Fired => false,
    }
}

/// A timer is armed with the whole milliseconds of the wait, whatever is
/// left below one millisecond being dropped: never with more than the wait,
/// and with less than one millisecond short of it.
pub proof fn lemma_armed_delay_truncates(nanos: nat)
    requires
        armed_millis(nanos) is Some,
    ensures
        0 <= armed_millis(nanos).unwrap(),
        armed_millis(nanos).unwrap() * NANOS_PER_MILLI <= nanos,
        nanos < (armed_millis(nanos).unwrap() + 1) * NANOS_PER_MILLI,
{
}

/// A wait of a whole number of milliseconds is never cut short: the timer,
/// where one is armed, is armed with all of it.
pub proof fn lemma_whole_millis_are_kept(nanos: nat)
    requires
        nanos % (NANOS_PER_MILLI as nat) == 0,
    ensures
        armed_millis(nanos) matches Some(millis) ==> millis * NANOS_PER_MILLI == nanos,
{
}

/// A wait is refused exactly when its whole milliseconds exceed the host's
/// range, and then nothing is registered. A wait that is not refused is armed
/// with no other delay than its own whole milliseconds: nothing is clamped.
pub proof fn lemma_out_of_range_aborts(span: Span)
    ensures
        whole_millis(span@) > MAX_DELAY_MILLIS ==> next(
            TimerState::Unregistered,
            TimerEvent::Requested { span },
        ) == (TimerState::Unregistered, TimerAction::Abort),
        whole_millis(span@) <= MAX_DELAY_MILLIS ==> next(
            TimerState::Unregistered,
            TimerEvent::Requested { span },
        ) == (TimerState::Registered, TimerAction::Arm { millis: whole_millis(span@) as i32 }),
{
}

/// Nothing moves a timer that has fired.
pub proof fn lemma_fired_stays_fired(events: Seq<TimerEvent>)
    ensures
        run(TimerState::Fired, events) is Fired,
    decreases events.len(),
{
    if events.len() > 0 {
        lemma_fired_stays_fired(events.drop_first());
    }
}

/// Whatever happens to a timer, and in whatever order, the wait is completed
/// at most once; a timer that has fired never completes it again.
pub proof fn lemma_resolves_at_most_once(state: TimerState, events: Seq<TimerEvent>)
    ensures
        resolutions(state, events) <= 1,
        state is Fired ==> resolutions(state, events) == 0,
        resolutions(state, events) == 1 ==> run(state, events) is Fired,
    decreases events.len(),
{
    if events.len() > 0 {
        let after = next(state, events.first()).0;
        lemma_resolves_at_most_once(after, events.drop_first());
        if after is Fired {
            lemma_fired_stays_fired(events.drop_first());
        }
    }
}

/// The wait is completed exactly when the host invokes the callback of a
/// registration that it has not refused: of the one that stands, or of one
/// made for a wait that it can be asked for. In every other course of events
/// the wait is never completed.
pub proof fn lemma_resolves_iff_completes(state: TimerState, events: Seq<TimerEvent>)
    ensures
        resolutions(state, events) == 1 <==> completes(state, events),
    decreases events.len(),
{
    lemma_resolves_at_most_once(state, events);
    if events.len() > 0 {
        let first = events.first();
        let rest = events.drop_first();
        let after = next(state, first).0;
        lemma_resolves_iff_completes(after, rest);
        lemma_resolves_at_most_once(after, rest);
        if exists|i: int, j: int| armed_then_invoked(rest, i, j) {
            let (i, j) = choose|i: int, j: int| armed_then_invoked(rest, i, j);
            lemma_armed_after_first(events, i, j);
        }
        if exists|i: int, j: int| armed_then_invoked(events, i, j) {
            let (i, j) = choose|i: int, j: int| armed_then_invoked(events, i, j);
            if i == 0 {
                lemma_armed_at_first(events, j);
            } else {
                lemma_armed_without_first(events, i, j);
            }
        }
        match state {
            TimerState::Fired => {},
            TimerState::Registered => {
                if first is CallbackInvoked {
                    assert(invoked_unrefused(events, 0));
                } else {
                    if exists|j: int| invoked_unrefused(rest, j) {
                        let j = choose|j: int| invoked_unrefused(rest, j);
                        if !(first is Refused) {
                            lemma_invoked_after_first(events, j);
                        }
                    }
                    if exists|j: int| invoked_unrefused(events, j) {
                        let j = choose|j: int| invoked_unrefused(events, j);
                        assert(!(events[0] is Refused));
                        lemma_invoked_without_first(events, j);
                    }
                }
            },
            TimerState::Unregistered => {
                if exists|j: int| invoked_unrefused(rest, j) {
                    let j = choose|j: int| invoked_unrefused(rest, j);
                    if accepted(first) {
                        lemma_armed_at_first(events, j + 1);
                    }
                }
            },
        }
    }
}

/// A callback that the rest of `events` holds unrefused is unrefused in
/// `events` too, unless the first event is the refusal.
proof fn lemma_invoked_after_first(events: Seq<TimerEvent>, j: int)
    requires
        events.len() > 0,
        !(events[0] is Refused),
        invoked_unrefused(events.drop_first(), j),
    ensures
        invoked_unrefused(events, j + 1),
{
    let rest = events.drop_first();
    assert forall|k: int| 0 <= k < j + 1 implies !(#[trigger] events[k] is Refused) by {
        if k > 0 {
            assert(events[k] == rest[k - 1]);
        }
    }
}

/// A callback that `events` holds unrefused after the first event is
/// unrefused in the rest.
proof fn lemma_invoked_without_first(events: Seq<TimerEvent>, j: int)
    requires
        j > 0,
        invoked_unrefused(events, j),
    ensures
        invoked_unrefused(events.drop_first(), j - 1),
{
    let rest = events.drop_first();
    assert forall|k: int| 0 <= k < j - 1 implies !(#[trigger] rest[k] is Refused) by {
        assert(rest[k] == events[k + 1]);
    }
}

/// A registration and its callback in the rest of `events` are one place
/// further on in `events`.
proof fn lemma_armed_after_first(events: Seq<TimerEvent>, i: int, j: int)
    requires
        events.len() > 0,
        armed_then_invoked(events.drop_first(), i, j),
    ensures
        armed_then_invoked(events, i + 1, j + 1),
{
    let rest = events.drop_first();
    assert forall|k: int| i + 1 < k < j + 1 implies !(#[trigger] events[k] is Refused) by {
        assert(events[k] == rest[k - 1]);
    }
}

/// A registration after the first event, and its callback, are one place
/// earlier in the rest of `events`.
proof fn lemma_armed_without_first(events: Seq<TimerEvent>, i: int, j: int)
    requires
        i > 0,
        armed_then_invoked(events, i, j),
    ensures
        armed_then_invoked(events.drop_first(), i - 1, j - 1),
{
    let rest = events.drop_first();
    assert forall|k: int| i - 1 < k < j - 1 implies !(#[trigger] rest[k] is Refused) by {
        assert(rest[k] == events[k + 1]);
    }
}

/// A registration by the first event has its callback where the rest of
/// `events` holds one unrefused.
proof fn lemma_armed_at_first(events: Seq<TimerEvent>, j: int)
    requires
        events.len() > 0,
    ensures
        armed_then_invoked(events, 0, j) <==> accepted(events[0]) && invoked_unrefused(
            events.drop_first(),
            j - 1,
        ),
{
    let rest = events.drop_first();
    if armed_then_invoked(events, 0, j) {
        assert forall|k: int| 0 <= k < j - 1 implies !(#[trigger] rest[k] is Refused) by {
            assert(rest[k] == events[k + 1]);
        }
    }
    if accepted(events[0]) && invoked_unrefused(rest, j - 1) {
        assert forall|k: int| 0 < k < j implies !(#[trigger] events[k] is Refused) by {
            assert(events[k] == rest[k - 1]);
        }
    }
}

} // verus!

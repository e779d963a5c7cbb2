//! The strategy contract, and what each strategy asks of its platform.
//!
//! Nothing here waits. A strategy of this module settles what the platform
//! is to be asked for; whoever holds the platform's primitive asks for it.

use crate::host_timer::{next, step, TimerAction, TimerEvent, TimerState};
use crate::span::Span;
use std::time::Duration;
use vstd::prelude::*;
use web_sys::Window;

verus! {

/// A way of carrying out "wait for this long".
///
/// `D` is what the caller measures the wait in. `Out` is what the caller gets
/// back: nothing, once the wait is over; a computation that completes when it
/// is; or, from a strategy that leaves the waiting to its caller, what the
/// platform is to be asked for. A strategy keeps nothing from one call to the
/// next, and there is no error to return: a wait that cannot be arranged
/// fails for good.
pub trait DelayStrategy<D> {
    type Out;

    fn delay(&self, by: D) -> Self::Out;
}

/// The wait is the calling thread's: it is blocked until the wait is over.
#[derive(Debug, Clone, Copy)]
pub struct ThreadSleep {}

impl<D: Into<Duration>> DelayStrategy<D> for ThreadSleep {
    type Out = Duration;

    /// How long the calling thread is to be blocked: exactly what `delay`
    /// converts into.
    fn delay(&self, delay: D) -> (wait: Duration)
        ensures
            call_ensures(D::into, (delay,), wait),
    {
        delay.into()
    }
}

/// The wait is the current task's: it is suspended on the scheduler's timer
/// and no thread is blocked.
#[derive(Debug, Clone, Copy)]
pub struct TokioSleep {}

impl<D: Into<Duration>> DelayStrategy<D> for TokioSleep {
    type Out = Duration;

    /// How long the current task is to be suspended: exactly what `delay`
    /// converts into.
    fn delay(&self, delay: D) -> (wait: Duration)
        ensures
            call_ensures(D::into, (delay,), wait),
    {
        delay.into()
    }
}

/// `web_sys::Window`, the handle of a browser window. Nothing is known of
/// what it holds, and nothing here calls it.
#[verifier::external_type_specification]
#[verifier::external_body]
pub struct ExWindow(Window);

impl DelayStrategy<Span> for Window {
    type Out = (TimerState, TimerAction);

    /// What is to be done for a wait of `by` on a fresh one-shot timer of
    /// this window, and where the timer then stands: armed with the whole
    /// milliseconds of the wait, or, where those are beyond the timer's
    /// range, nothing armed and the call to fail for good.
    fn delay(&self, by: Span) -> (out: (TimerState, TimerAction))
        ensures
            out == next(TimerState::Unregistered, TimerEvent::Requested { span: by }),
    {
        step(TimerState::Unregistered, TimerEvent::Requested { span: by })
    }
}

} // verus!

//! The canonical time span: a non-negative length of time with nanosecond
//! resolution, modelled as its total number of nanoseconds.

use vstd::prelude::*;

verus! {

/// Nanoseconds in one second.
pub const NANOS_PER_SEC: u32 = 1_000_000_000;

/// Nanoseconds in one millisecond.
pub const NANOS_PER_MILLI: u32 = 1_000_000;

/// Milliseconds in one second.
pub const MILLIS_PER_SEC: u64 = 1_000;

/// Whether a length of `nanos` nanoseconds can be held by a [`Span`]: its
/// whole seconds fit in 64 bits.
pub open spec fn representable(nanos: nat) -> bool {
    nanos / (NANOS_PER_SEC as nat) <= u64::MAX
}

/// A non-negative length of time, kept as whole seconds and the remaining
/// fraction of a second in nanoseconds.
#[derive(Clone, Copy, Debug, PartialEq, Eq)]
pub struct Span {
    secs: u64,
    nanos: u32,
}

impl View for Span {
    type V = nat;

    /// The length of the span in nanoseconds.
    closed spec fn view(&self) -> nat {
        self.secs as nat * NANOS_PER_SEC as nat + self.nanos as nat
    }
}

impl Span {
    /// The fraction is always below one second, so every length has exactly
    /// one representation.
    #[verifier::type_invariant]
    pub closed spec fn canonical(self) -> bool {
        self.nanos < NANOS_PER_SEC
    }

    /// A span of `secs` seconds and `nanos` nanoseconds. A `nanos` of one
    /// second or more carries over into the seconds; `None` when the sum does
    /// not fit.
    pub fn new(secs: u64, nanos: u32) -> (span: Option<Span>)
        ensures
            span is Some <==> representable(secs as nat * NANOS_PER_SEC as nat + nanos as nat),
            span matches Some(s) ==> s@ == secs as nat * NANOS_PER_SEC as nat + nanos as nat,
    {
        let carry: u32 = nanos / NANOS_PER_SEC;
        let rest: u32 = nanos % NANOS_PER_SEC;
        match secs.checked_add(carry as u64) {
            Some(total) => Some(Span { secs: total, nanos: rest }),
            None => None,
        }
    }

    /// A span of `millis` milliseconds.
    pub fn from_millis(millis: u64) -> (span: Span)
        ensures
            span@ == millis as nat * NANOS_PER_MILLI as nat,
    {
        let secs: u64 = millis / MILLIS_PER_SEC;
        let rest: u32 = (millis % MILLIS_PER_SEC) as u32;
        assert(secs * 1_000_000_000 + rest * 1_000_000 == millis * 1_000_000);
        Span { secs, nanos: rest * NANOS_PER_MILLI }
    }

    /// The whole seconds of the span.
    pub fn as_secs(&self) -> (secs: u64)
        ensures
            secs == self@ / (NANOS_PER_SEC as nat),
    {
        proof {
            use_type_invariant(self);
        }
        self.secs
    }

    /// What is left of the span beyond its whole seconds, in nanoseconds.
    pub fn subsec_nanos(&self) -> (nanos: u32)
        ensures
            nanos == self@ % (NANOS_PER_SEC as nat),
            nanos < NANOS_PER_SEC,
    {
        proof {
            use_type_invariant(self);
        }
        self.nanos
    }

    /// The whole milliseconds of the span; what is left below one
    /// millisecond is dropped, not rounded.
    pub fn as_millis(&self) -> (millis: u128)
        ensures
            millis == self@ / (NANOS_PER_MILLI as nat),
    {
        proof {
            use_type_invariant(self);
        }
        let whole: u128 = self.secs as u128 * MILLIS_PER_SEC as u128;
        let part: u32 = self.nanos / NANOS_PER_MILLI;
        assert((self.secs * 1_000_000_000 + self.nanos) / 1_000_000 == self.secs * 1_000 + part);
        whole + part as u128
    }
}

/// Every length has one representation only: two spans of the same length
/// are the same span.
pub proof fn lemma_length_determines_span(a: Span, b: Span)
    requires
        a.canonical(),
        b.canonical(),
        a@ == b@,
    ensures
        a == b,
{
    assert(a.secs * 1_000_000_000 + a.nanos == b.secs * 1_000_000_000 + b.nanos);
}

} // verus!

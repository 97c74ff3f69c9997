//! Spans of time, to the nanosecond.

use vstd::prelude::*;

verus! {

/// How many nanoseconds a second has.
pub const NANOS_PER_SEC: u32 = 1_000_000_000;

/// A span of time.
#[derive(Debug, Clone, Copy, PartialEq, Eq)]
pub struct Duration {
    secs: u64,
    /// Less than a second.
    nanos: u32,
}

impl View for Duration {
    type V = nat;

    /// The span in nanoseconds.
    closed spec fn view(&self) -> nat {
        self.secs as nat * NANOS_PER_SEC as nat + self.nanos as nat
    }
}

impl Duration {
    #[verifier::type_invariant]
    spec fn is_normal(self) -> bool {
        self.nanos < NANOS_PER_SEC
    }

    /// So many seconds, and so many nanoseconds of the next one.
    pub fn new(secs: u64, nanos: u32) -> (span: Self)
        requires
            nanos < NANOS_PER_SEC,
        ensures
            span@ == secs as nat * NANOS_PER_SEC as nat + nanos as nat,
    {
        Duration { secs, nanos }
    }

    pub fn from_secs(secs: u64) -> (span: Self)
        ensures
            span@ == secs as nat * NANOS_PER_SEC as nat,
    {
        Duration { secs, nanos: 0 }
    }

    pub fn from_millis(millis: u64) -> (span: Self)
        ensures
            span@ == millis as nat * 1_000_000,
    {
        Duration { secs: millis / 1_000, nanos: (millis % 1_000) as u32 * 1_000_000 }
    }

    /// The whole seconds of the span.
    pub fn as_secs(&self) -> (secs: u64)
        ensures
            secs as nat == self@ / NANOS_PER_SEC as nat,
    {
        proof {
            use_type_invariant(self);
        }
        self.secs
    }

    /// What is left of the span beyond its whole seconds.
    pub fn subsec_nanos(&self) -> (nanos: u32)
        ensures
            nanos as nat == self@ % NANOS_PER_SEC as nat,
            nanos < NANOS_PER_SEC,
    {
        proof {
            use_type_invariant(self);
        }
        self.nanos
    }

    /// Whether the span is no shorter than another.
    pub fn at_least(&self, other: &Duration) -> (enough: bool)
        ensures
            enough == (self@ >= other@),
    {
        proof {
            use_type_invariant(self);
            use_type_invariant(other);
        }
        self.secs > other.secs || self.secs == other.secs && self.nanos >= other.nanos
    }

    /// What the span looks like to an operator.
    pub fn show(&self) -> (text: String)
        ensures
            text@ == duration_text(self@),
    {
        show_duration(self.as_secs(), self.subsec_nanos())
    }
}

/// What a span of so many nanoseconds looks like to an operator.
pub uninterp spec fn duration_text(nanos: nat) -> Seq<char>;

/// The `Debug` of `std::time::Duration`: a function of the span alone. A span of
/// a whole number of seconds and less than a second more is made by
/// `std::time::Duration::new` without a carry.
#[verifier::external_body]
fn show_duration(secs: u64, nanos: u32) -> (text: String)
    requires
        nanos < NANOS_PER_SEC,
    ensures
        text@ == duration_text(secs as nat * NANOS_PER_SEC as nat + nanos as nat),
{
    format!("{:?}", std::time::Duration::new(secs, nanos))
}

} // verus!

//! Duration values and the duration-expression parser.

pub mod error;
pub mod parser;

pub use error::Error;
pub use error::ErrorKind;
pub use parser::parse;

use vstd::prelude::*;

verus! {

/// Clips a nanosecond count to what a `Duration` can hold.
pub open spec fn clip_nanos(n: int) -> int {
    if n > u128::MAX as int {
        u128::MAX as int
    } else {
        n
    }
}

/// A non-negative span of time with nanosecond resolution.
///
/// The view of a `Duration` is its total number of nanoseconds.
/// Arithmetic saturates at `u128::MAX` nanoseconds instead of
/// overflowing: accumulation only ever grows a value.
#[derive(Clone, Copy, Debug, PartialEq, Eq, Structural)]
pub struct Duration {
    nanos: u128,
}

impl View for Duration {
    type V = int;

    closed spec fn view(&self) -> int {
        self.nanos as int
    }
}

impl Duration {
    /// The zero-length span.
    pub fn zero() -> (d: Duration)
        ensures
            d@ == 0,
    {
        Duration { nanos: 0 }
    }

    /// A span of `n` nanoseconds.
    pub fn from_nanos(n: u64) -> (d: Duration)
        ensures
            d@ == n,
    {
        Duration { nanos: n as u128 }
    }

    /// A span of `n` microseconds.
    pub fn from_micros(n: u64) -> (d: Duration)
        ensures
            d@ == n * 1_000,
    {
        Duration { nanos: n as u128 * 1_000 }
    }

    /// A span of `n` milliseconds.
    pub fn from_millis(n: u64) -> (d: Duration)
        ensures
            d@ == n * 1_000_000,
    {
        Duration { nanos: n as u128 * 1_000_000 }
    }

    /// A span of `n` seconds.
    pub fn from_secs(n: u64) -> (d: Duration)
        ensures
            d@ == n * 1_000_000_000,
    {
        Duration { nanos: n as u128 * 1_000_000_000 }
    }

    /// A span of a full nanosecond count, for the parser's totals.
    pub(crate) fn from_total_nanos(n: u128) -> (d: Duration)
        ensures
            d@ == n,
    {
        Duration { nanos: n }
    }

    /// The whole span in nanoseconds.
    pub fn as_nanos(&self) -> (n: u128)
        ensures
            n as int == self@,
    {
        self.nanos
    }

    /// The sum of two spans, clipped at the largest representable span.
    pub fn saturating_add(self, other: Duration) -> (d: Duration)
        ensures
            d@ == clip_nanos(self@ + other@),
    {
        Duration { nanos: self.nanos.saturating_add(other.nanos) }
    }
}

} // verus!

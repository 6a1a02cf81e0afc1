//! Block information, points in block time or height at which
//! something expires, and durations measured in either.
use vstd::prelude::*;

verus! {

/// A point in time, in nanoseconds since the Unix epoch.
#[derive(Clone, Copy, Debug, PartialEq, Eq, Structural)]
pub struct Timestamp {
    pub nanos: u64,
}

impl Timestamp {
    pub fn from_seconds(seconds: u64) -> (t: Timestamp)
        requires
            seconds * 1_000_000_000 <= u64::MAX,
        ensures
            t.nanos == seconds * 1_000_000_000,
    {
        Timestamp { nanos: seconds * 1_000_000_000 }
    }

    pub fn from_nanos(nanos: u64) -> (t: Timestamp)
        ensures
            t.nanos == nanos,
    {
        Timestamp { nanos }
    }

    /// This time plus `seconds` seconds.
    pub fn plus_seconds(&self, seconds: u64) -> (t: Timestamp)
        requires
            self.nanos + seconds * 1_000_000_000 <= u64::MAX,
        ensures
            t.nanos == self.nanos + seconds * 1_000_000_000,
    {
        Timestamp { nanos: self.nanos + seconds * 1_000_000_000 }
    }
}

/// The block that a message is executed in.
#[derive(Clone, Debug, PartialEq, Eq)]
pub struct BlockInfo {
    pub height: u64,
    pub time: Timestamp,
    pub chain_id: String,
}

/// When something expires.
#[derive(Clone, Copy, Debug, PartialEq, Eq, Structural)]
pub enum Expiration {
    /// Expires when the block height reaches this value.
    AtHeight(u64),
    /// Expires when the block time reaches this value.
    AtTime(Timestamp),
    /// Never expires.
    Never {},
}

/// A length of time, in blocks or in seconds.
#[derive(Clone, Copy, Debug, PartialEq, Eq, Structural)]
pub enum Duration {
    Height(u64),
    /// In seconds.
    Time(u64),
}

pub open spec fn spec_is_expired(e: Expiration, height: u64, nanos: u64) -> bool {
    match e {
        Expiration::AtHeight(h) => height >= h,
        Expiration::AtTime(t) => nanos >= t.nanos,
        Expiration::Never {} => false,
    }
}

impl Expiration {
    pub open spec fn expired_at(self, block: BlockInfo) -> bool {
        spec_is_expired(self, block.height, block.time.nanos)
    }

    /// Whether the expiration has been reached at `block`.
    pub fn is_expired(&self, block: &BlockInfo) -> (b: bool)
        ensures
            b == self.expired_at(*block),
    {
        match self {
            Expiration::AtHeight(h) => block.height >= *h,
            Expiration::AtTime(t) => block.time.nanos >= t.nanos,
            Expiration::Never {} => false,
        }
    }
}

/// Once expired, an expiration stays expired at every later block.
pub proof fn law_expiration_monotone(e: Expiration, h1: u64, t1: u64, h2: u64, t2: u64)
    requires
        h1 <= h2,
        t1 <= t2,
        spec_is_expired(e, h1, t1),
    ensures
        spec_is_expired(e, h2, t2),
{
}

/// `a <= b` in the partial order of expirations: heights compare with
/// heights, times with times, and `Never` is above everything.
pub open spec fn spec_expiration_le(a: Expiration, b: Expiration) -> bool {
    match (a, b) {
        (Expiration::AtHeight(x), Expiration::AtHeight(y)) => x <= y,
        (Expiration::AtTime(x), Expiration::AtTime(y)) => x.nanos <= y.nanos,
        (_, Expiration::Never {}) => true,
        _ => false,
    }
}

/// Whether `a <= b`; expirations of different kinds are not ordered,
/// except that `Never` is above everything.
pub fn expiration_le(a: &Expiration, b: &Expiration) -> (r: bool)
    ensures
        r == spec_expiration_le(*a, *b),
{
    match (a, b) {
        (Expiration::AtHeight(x), Expiration::AtHeight(y)) => *x <= *y,
        (Expiration::AtTime(x), Expiration::AtTime(y)) => x.nanos <= y.nanos,
        (_, Expiration::Never {}) => true,
        _ => false,
    }
}

impl Duration {
    pub open spec fn fits_after(self, block: BlockInfo) -> bool {
        match self {
            Duration::Height(h) => block.height + h <= u64::MAX,
            Duration::Time(t) => block.time.nanos + t * 1_000_000_000 <= u64::MAX,
        }
    }

    pub open spec fn spec_after(self, block: BlockInfo) -> Expiration {
        match self {
            Duration::Height(h) => Expiration::AtHeight((block.height + h) as u64),
            Duration::Time(t) => Expiration::AtTime(
                Timestamp { nanos: (block.time.nanos + t * 1_000_000_000) as u64 },
            ),
        }
    }

    /// The expiration this long after `block`.
    pub fn after(&self, block: &BlockInfo) -> (e: Expiration)
        requires
            self.fits_after(*block),
        ensures
            e == self.spec_after(*block),
    {
        match self {
            Duration::Height(h) => Expiration::AtHeight(block.height + *h),
            Duration::Time(t) => Expiration::AtTime(block.time.plus_seconds(*t)),
        }
    }
}

/// A duration counted from a block has not expired at that block
/// unless it is empty.
pub proof fn law_after_not_expired_at_start(d: Duration, block: BlockInfo)
    requires
        d.fits_after(block),
        match d {
            Duration::Height(h) => h > 0,
            Duration::Time(t) => t > 0,
        },
    ensures
        !d.spec_after(block).expired_at(block),
{
}

} // verus!

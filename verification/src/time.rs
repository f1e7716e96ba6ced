//! Points in time, as headers carry them.

use crate::amino::{put_varint_field, varint_field};
use crate::error::Error;
use vstd::prelude::*;

verus! {

/// The number of nanoseconds in a second.
pub const NANOS_PER_SECOND: i32 = 1_000_000_000;

/// A point in time: whole seconds since the Unix epoch, and the nanoseconds
/// into that second.
#[derive(Clone, Copy, Debug, PartialEq, Eq, Structural)]
pub struct Time {
    /// Seconds since 1970-01-01T00:00:00Z; negative before it.
    pub seconds: i64,
    /// Nanoseconds into the second.
    pub nanos: i32,
}

/// The message encoding of a time that is encodable: the seconds as field 1,
/// the nanoseconds as field 2.
pub open spec fn time_bytes(time: Time) -> Seq<u8> {
    varint_field(1, time.seconds as nat) + varint_field(2, time.nanos as nat)
}

impl Time {
    /// Whether the time has a canonical encoding: it is not before the epoch,
    /// and its nanoseconds are less than a second.
    pub open spec fn is_encodable(self) -> bool {
        self.seconds >= 0 && 0 <= self.nanos < NANOS_PER_SECOND
    }

    /// Encodes the time as a message. A time before the epoch, or one whose
    /// nanoseconds are no part of a second, has no encoding.
    pub fn bytes_vec(&self) -> (r: Result<Vec<u8>, Error>)
        ensures
            match r {
                Ok(out) => self.is_encodable() && out@ == time_bytes(*self),
                Err(e) => !self.is_encodable() && e == Error::FatalEncoding,
            },
    {
        if self.seconds < 0 || self.nanos < 0 || self.nanos >= NANOS_PER_SECOND {
            return Err(Error::FatalEncoding);
        }
        let mut out: Vec<u8> = Vec::new();
        put_varint_field(&mut out, 1, self.seconds as u64);
        put_varint_field(&mut out, 2, self.nanos as u64);
        Ok(out)
    }

    /// The Unix epoch.
    pub fn unix_epoch() -> (t: Time)
        ensures
            t == (Time { seconds: 0, nanos: 0 }),
            t.is_encodable(),
    {
        Time { seconds: 0, nanos: 0 }
    }
}

/// A span of time: whole seconds, and the nanoseconds beyond them.
#[derive(Clone, Copy, Debug, PartialEq, Eq, Structural)]
pub struct Duration {
    secs: u64,
    nanos: u32,
}

impl Duration {
    /// The length of the span in nanoseconds.
    pub closed spec fn nanoseconds(self) -> nat {
        (self.secs * 1_000_000_000 + self.nanos) as nat
    }

    /// The span of so many nanoseconds.
    pub fn from_nanos(nanos: u64) -> (d: Duration)
        ensures
            d.nanoseconds() == nanos,
    {
        Duration { secs: nanos / 1_000_000_000, nanos: (nanos % 1_000_000_000) as u32 }
    }

    /// The length of the span in nanoseconds.
    pub fn as_nanos(&self) -> (n: u128)
        ensures
            n == self.nanoseconds(),
    {
        self.secs as u128 * 1_000_000_000 + self.nanos as u128
    }

    /// The whole seconds of the span.
    pub fn as_secs(&self) -> (s: u64)
        ensures
            s == self.nanoseconds() / 1_000_000_000,
    {
        proof {
            use_type_invariant(self);
        }
        self.secs
    }

    /// The nanoseconds beyond the whole seconds.
    pub fn subsec_nanos(&self) -> (n: u32)
        ensures
            n == self.nanoseconds() % 1_000_000_000,
    {
        proof {
            use_type_invariant(self);
        }
        self.nanos
    }

    #[verifier::type_invariant]
    spec fn well_formed(self) -> bool {
        self.nanos < 1_000_000_000
    }
}

} // verus!

//! Instants and the durations between them, in nanoseconds.

use vstd::prelude::*;

verus! {

/// An instant: nanoseconds since the Unix epoch, negative before it.
#[derive(Debug, Clone, Copy, PartialEq, Eq, Structural)]
pub struct Time {
    /// Nanoseconds since 1970-01-01T00:00:00Z.
    pub nanos: i64,
}

impl Time {
    /// The time from `origin` to `self`, in nanoseconds; `None` where
    /// `origin` is the later of the two.
    pub open spec fn spec_duration_since(self, origin: Time) -> Option<u64> {
        if self.nanos >= origin.nanos {
            Some((self.nanos - origin.nanos) as u64)
        } else {
            None
        }
    }

    /// The instant `duration` nanoseconds after `self`; `None` where it
    /// cannot be represented.
    pub open spec fn spec_add(self, duration: u64) -> Option<Time> {
        if self.nanos + duration <= i64::MAX {
            Some(Time { nanos: (self.nanos + duration) as i64 })
        } else {
            None
        }
    }

    /// The instant that many nanoseconds after the Unix epoch.
    pub fn from_timestamp_nanos(nanos: i64) -> (time: Time)
        ensures
            time.nanos == nanos,
    {
        Time { nanos }
    }

    /// The instant that many milliseconds after the Unix epoch; `None`
    /// where it cannot be represented.
    pub fn from_timestamp_millis(millis: i64) -> (time: Option<Time>)
        ensures
            time is Some <==> i64::MIN <= millis * 1_000_000 <= i64::MAX,
            time matches Some(t) ==> t.nanos == millis * 1_000_000,
    {
        match millis.checked_mul(1_000_000) {
            Some(nanos) => Some(Time { nanos }),
            None => None,
        }
    }

    /// Nanoseconds since the Unix epoch.
    pub fn timestamp_nanos(&self) -> (nanos: i64)
        ensures
            nanos == self.nanos,
    {
        self.nanos
    }

    /// The time from `origin` to `self`, in nanoseconds; `None` where
    /// `origin` is the later of the two.
    pub fn checked_duration_since(&self, origin: Time) -> (duration: Option<u64>)
        ensures
            duration == self.spec_duration_since(origin),
    {
        if self.nanos < origin.nanos {
            None
        } else if origin.nanos >= 0 {
            Some((self.nanos - origin.nanos) as u64)
        } else if self.nanos < 0 {
            Some((self.nanos - origin.nanos) as u64)
        } else {
            let below: u64 = (-(origin.nanos + 1)) as u64 + 1;
            Some(self.nanos as u64 + below)
        }
    }

    /// The instant `duration` nanoseconds after `self`; `None` where it
    /// cannot be represented.
    pub fn checked_add(&self, duration: u64) -> (sum: Option<Time>)
        ensures
            sum == self.spec_add(duration),
    {
        if self.nanos >= 0 {
            let room: u64 = (i64::MAX - self.nanos) as u64;
            if duration <= room {
                Some(Time { nanos: self.nanos + (duration as i64) })
            } else {
                None
            }
        } else {
            let below: u64 = (-(self.nanos + 1)) as u64 + 1;
            if duration < below {
                Some(Time { nanos: self.nanos + (duration as i64) })
            } else if duration - below <= 0x7FFF_FFFF_FFFF_FFFF {
                Some(Time { nanos: (duration - below) as i64 })
            } else {
                None
            }
        }
    }
}

} // verus!

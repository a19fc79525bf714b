//! A duration that many readers can see while one writer sets it.
//!
//! The duration is kept as a signed count of nanoseconds in one atomic
//! word; `-1` says that it has not been set. Zero is a duration like any
//! other.

use vstd::prelude::*;

use std::sync::atomic::AtomicI64;
use std::sync::atomic::Ordering;

use crate::query_log::time::Time;

verus! {

/// The word that stands for a duration that has not been set.
pub const UNCOMPLETED_DURATION: i64 = -1;

/// The duration that a word stands for: none for `-1`, else the word read
/// as an unsigned count of nanoseconds.
pub open spec fn spec_decode_duration(raw: i64) -> Option<u64> {
    if raw == UNCOMPLETED_DURATION {
        None
    } else if raw >= 0 {
        Some(raw as u64)
    } else {
        Some((raw + 0x1_0000_0000_0000_0000) as u64)
    }
}

/// The word that a duration is kept as: its low 64 bits, read as a signed
/// number.
pub open spec fn spec_encode_duration(nanos: u64) -> i64 {
    if nanos <= i64::MAX {
        nanos as i64
    } else {
        (nanos - 0x1_0000_0000_0000_0000) as i64
    }
}

/// What a reader sees after `nanos` was stored: the duration itself, but
/// for the one duration whose word says "not set".
pub open spec fn spec_stored(nanos: u64) -> Option<u64> {
    if nanos == u64::MAX {
        None
    } else {
        Some(nanos)
    }
}

/// What a reader sees after the time from `origin` to `now` was to be
/// stored over `current`: a clock that ran backwards leaves `current` as it
/// is.
pub open spec fn spec_set_relative(current: Option<u64>, origin: Time, now: Time) -> Option<u64> {
    match now.spec_duration_since(origin) {
        Some(nanos) => spec_stored(nanos),
        None => current,
    }
}

/// The word that an optional duration is kept as.
pub open spec fn spec_encode_optional(duration: Option<u64>) -> i64 {
    match duration {
        Some(nanos) => spec_encode_duration(nanos),
        None => UNCOMPLETED_DURATION,
    }
}

/// Reading back a stored duration gives what `spec_stored` says.
pub proof fn lemma_decode_encode(nanos: u64)
    ensures
        spec_decode_duration(spec_encode_duration(nanos)) == spec_stored(nanos),
{
}

/// Reads a word as a duration.
pub fn decode_duration(raw: i64) -> (duration: Option<u64>)
    ensures
        duration == spec_decode_duration(raw),
{
    if raw == UNCOMPLETED_DURATION {
        None
    } else if raw >= 0 {
        Some(raw as u64)
    } else {
        let above: u64 = (raw - i64::MIN) as u64;
        Some(above + 0x8000_0000_0000_0000)
    }
}

/// The word that a duration is kept as.
pub fn encode_duration(nanos: u64) -> (raw: i64)
    ensures
        raw == spec_encode_duration(nanos),
{
    if nanos <= 0x7FFF_FFFF_FFFF_FFFF {
        nanos as i64
    } else {
        let above: i64 = (nanos - 0x8000_0000_0000_0000) as i64;
        above + i64::MIN
    }
}

/// A duration in an atomic word, with "not set" told apart from zero.
#[derive(Debug)]
pub struct AtomicDuration(AtomicI64);

impl AtomicDuration {
    /// A duration that has not been set.
    pub fn new() -> Self {
        AtomicDuration(AtomicI64::new(UNCOMPLETED_DURATION))
    }

    /// The word that is stored now.
    fn load(&self) -> i64 {
        self.0.load(Ordering::Relaxed)
    }

    /// Stores a word.
    fn store(&self, raw: i64) {
        self.0.store(raw, Ordering::Relaxed)
    }

    /// The duration, or `None` where it has not been set.
    ///
    /// Other holders may store at any moment, so nothing is promised of
    /// which word is read; the duration is what [`decode_duration`] makes of
    /// that word.
    pub fn get(&self) -> (duration: Option<u64>)
        ensures
            exists|raw: i64| duration == spec_decode_duration(raw),
    {
        let raw = self.load();
        decode_duration(raw)
    }

    /// Stores the time from `origin` to `now`. Where the clock ran
    /// backwards, so that `now` lies before `origin`, nothing is stored.
    /// Returns whether a duration was stored.
    pub fn set_relative(&self, origin: Time, now: Time) -> (stored: bool)
        ensures
            stored == now.spec_duration_since(origin) is Some,
    {
        match now.checked_duration_since(origin) {
            Some(nanos) => {
                self.store(encode_duration(nanos));
                true
            },
            None => false,
        }
    }

    /// Stores `nanos`.
    pub fn set_absolute(&self, nanos: u64) {
        self.store(encode_duration(nanos));
    }

    /// Stores an optional duration: the duration, or "not set".
    pub fn set(&self, duration: Option<u64>) {
        match duration {
            Some(nanos) => self.store(encode_duration(nanos)),
            None => self.store(UNCOMPLETED_DURATION),
        }
    }
}

impl Default for AtomicDuration {
    fn default() -> Self {
        AtomicDuration::new()
    }
}

} // verus!

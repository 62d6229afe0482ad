//! Bridge between the monotonic clock and the wall clock.
//!
//! Both clocks are carried as plain millisecond counts: monotonic instants
//! from an arbitrary process-local origin, wall times since the Unix epoch.
//! A reference pair anchors the two scales; conversions shift along it, and
//! the periodic drift check rebuilds the pair when the scales diverge.

use vstd::prelude::*;

verus! {

/// Allowed drift between the two clocks before the reference is refreshed,
/// in milliseconds.
pub const MAX_DRIFT_MS: u64 = 10;

/// Reads the wall clock, in milliseconds since the Unix epoch.
///
/// Relies on `std::time::SystemTime::now`; the value depends on the clock,
/// so nothing is promised of it.
#[verifier::external_body]
pub(crate) fn wall_now_ms() -> u64 {
    std::time::SystemTime::now()
        .duration_since(std::time::SystemTime::UNIX_EPOCH)
        .map(|d| d.as_millis() as u64)
        .unwrap_or(0)
}

/// The anchor pair: one monotonic instant and the wall time observed
/// together with it.
#[derive(Debug, Clone, Copy, PartialEq, Eq, Structural)]
pub struct ClockRef {
    /// monotonic anchor, in milliseconds
    pub mono: u64,
    /// wall-clock anchor, in milliseconds since the Unix epoch
    pub wall: u64,
}

/// A wall time convertible through `anchor` without leaving `u64`.
pub open spec fn wall_in_range(anchor: ClockRef, wall: u64) -> bool {
    if anchor.wall >= wall {
        anchor.wall - wall <= anchor.mono
    } else {
        wall - anchor.wall <= u64::MAX - anchor.mono
    }
}

/// A monotonic instant convertible through `anchor` without leaving `u64`.
pub open spec fn mono_in_range(anchor: ClockRef, mono: u64) -> bool {
    if anchor.mono >= mono {
        anchor.mono - mono <= anchor.wall
    } else {
        mono - anchor.mono <= u64::MAX - anchor.wall
    }
}

pub open spec fn spec_from_systime(anchor: ClockRef, wall: u64) -> int {
    anchor.mono + wall - anchor.wall
}

pub open spec fn spec_to_systime(anchor: ClockRef, mono: u64) -> int {
    anchor.wall + mono - anchor.mono
}

impl ClockRef {
    /// Anchor the two clock scales at a freshly observed pair.
    pub fn update_ref_instant(mono: u64, wall: u64) -> (r: ClockRef)
        ensures
            r.mono == mono,
            r.wall == wall,
    {
        ClockRef { mono, wall }
    }

    /// Convert a wall time to the monotonic scale.
    pub fn from_systime(&self, wall: u64) -> (r: u64)
        requires
            wall_in_range(*self, wall),
        ensures
            r == spec_from_systime(*self, wall),
    {
        if self.wall >= wall {
            self.mono - (self.wall - wall)
        } else {
            self.mono + (wall - self.wall)
        }
    }

    /// Convert a monotonic instant to the wall scale.
    pub fn to_systime(&self, mono: u64) -> (r: u64)
        requires
            mono_in_range(*self, mono),
        ensures
            r == spec_to_systime(*self, mono),
    {
        if self.mono >= mono {
            self.wall - (self.mono - mono)
        } else {
            self.wall + (mono - self.mono)
        }
    }

    /// Compare a freshly observed `(mono_now, wall_now)` pair against the
    /// reference: when converting `wall_now` lands more than `MAX_DRIFT_MS`
    /// away from `mono_now`, the reference is replaced by the observed pair
    /// and `false` is returned; otherwise the reference is kept and the
    /// check succeeds.
    pub fn check_ref_time(&mut self, mono_now: u64, wall_now: u64) -> (ok: bool)
        requires
            wall_in_range(*old(self), wall_now),
        ensures
            ok == (spec_drift(*old(self), mono_now, wall_now) < MAX_DRIFT_MS),
            ok ==> *final(self) == *old(self),
            !ok ==> *final(self) == (ClockRef { mono: mono_now, wall: wall_now }),
    {
        let converted: u64 = self.from_systime(wall_now);
        let drift: u64 = if converted >= mono_now {
            converted - mono_now
        } else {
            mono_now - converted
        };
        if drift >= MAX_DRIFT_MS {
            *self = ClockRef { mono: mono_now, wall: wall_now };
            false
        } else {
            true
        }
    }
}

/// Absolute difference between `mono_now` and the conversion of `wall_now`.
pub open spec fn spec_drift(anchor: ClockRef, mono_now: u64, wall_now: u64) -> int {
    let converted = spec_from_systime(anchor, wall_now);
    if converted >= mono_now {
        converted - mono_now
    } else {
        mono_now - converted
    }
}

/// Converting a monotonic instant to the wall scale and back returns it
/// unchanged: the two conversions shift by the same anchored offset.
pub proof fn lemma_round_trip(anchor: ClockRef, mono: u64)
    requires
        mono_in_range(anchor, mono),
    ensures
        wall_in_range(anchor, spec_to_systime(anchor, mono) as u64),
        spec_from_systime(anchor, spec_to_systime(anchor, mono) as u64) == mono,
{
}

} // verus!

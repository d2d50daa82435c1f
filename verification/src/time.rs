//! Instants in UTC, as the library keeps them: seconds and nanoseconds since the Unix epoch,
//! within the range of instants that a `chrono::DateTime<Utc>` can hold.
use vstd::prelude::*;

verus! {

/// Seconds since the epoch of the earliest instant a `DateTime<Utc>` holds
/// (January 1 of the proleptic year -262143, that is 262144 BCE, 00:00:00).
pub const MIN_UNIX_SECS: i64 = -8334601315200;

/// Seconds since the epoch of the last second a `DateTime<Utc>` holds
/// (December 31, 262142 CE, 23:59:59).
pub const MAX_UNIX_SECS: i64 = 8210266876799;

/// Nanoseconds in a second.
pub const NANOS_PER_SEC: u32 = 1_000_000_000;

/// An instant in UTC: `secs` seconds and `nanos` nanoseconds after the Unix epoch.
#[derive(Clone, Copy)]
pub struct Timestamp {
    pub secs: i64,
    pub nanos: u32,
}

/// Whether `n` nanoseconds after the epoch is an instant a `DateTime<Utc>` can hold.
pub open spec fn instant_in_range(n: int) -> bool {
    MIN_UNIX_SECS * 1_000_000_000 <= n <= MAX_UNIX_SECS * 1_000_000_000 + 999_999_999
}

impl Timestamp {
    /// The instant as nanoseconds since the epoch.
    pub open spec fn nanos_since_epoch(self) -> int {
        self.secs * 1_000_000_000 + self.nanos
    }

    /// A well-formed instant: its nanoseconds are below one second, and it lies in the
    /// range a `DateTime<Utc>` can hold.
    pub open spec fn wf(self) -> bool {
        &&& self.nanos < 1_000_000_000
        &&& MIN_UNIX_SECS <= self.secs <= MAX_UNIX_SECS
    }

    /// The instant `secs` seconds and `nanos` nanoseconds after the epoch, when that is a
    /// well-formed instant.
    pub fn from_unix(secs: i64, nanos: u32) -> (r: Option<Timestamp>)
        ensures
            r matches Some(t) ==> t.wf() && t.secs == secs && t.nanos == nanos,
            r is None <==> !(Timestamp { secs, nanos }).wf(),
    {
        if nanos < NANOS_PER_SEC && MIN_UNIX_SECS <= secs && secs <= MAX_UNIX_SECS {
            Some(Timestamp { secs, nanos })
        } else {
            None
        }
    }

    /// The instant `delta_secs` seconds and `delta_nanos` nanoseconds after this one
    /// (before it, for negative seconds), as `DateTime + TimeDelta` computes it.
    pub fn plus(self, delta_secs: i64, delta_nanos: u32) -> (r: Timestamp)
        requires
            self.wf(),
            delta_nanos < 1_000_000_000,
            instant_in_range(self.nanos_since_epoch() + delta_secs * 1_000_000_000 + delta_nanos),
        ensures
            r.wf(),
            r.nanos_since_epoch() == self.nanos_since_epoch() + delta_secs * 1_000_000_000
                + delta_nanos,
    {
        let total_nanos: u64 = self.nanos as u64 + delta_nanos as u64;
        let mut secs: i128 = self.secs as i128 + delta_secs as i128;
        let mut nanos: u64 = total_nanos;
        if total_nanos >= 1_000_000_000 {
            secs = secs + 1;
            nanos = total_nanos - 1_000_000_000;
        }
        assert(MIN_UNIX_SECS <= secs <= MAX_UNIX_SECS) by (nonlinear_arith)
            requires
                instant_in_range(secs * 1_000_000_000 + nanos),
                nanos < 1_000_000_000,
        ;
        Timestamp { secs: secs as i64, nanos: nanos as u32 }
    }

    /// The instant `delta_secs` seconds and `delta_nanos` nanoseconds after this one, or
    /// `None` when it lies outside the range a `DateTime<Utc>` can hold (where
    /// `DateTime + TimeDelta` panics).
    pub fn checked_plus(self, delta_secs: i64, delta_nanos: u32) -> (r: Option<Timestamp>)
        requires
            self.wf(),
            delta_nanos < 1_000_000_000,
        ensures
            r is Some <==> instant_in_range(
                self.nanos_since_epoch() + delta_secs * 1_000_000_000 + delta_nanos,
            ),
            r matches Some(t) ==> t.wf() && t.nanos_since_epoch() == self.nanos_since_epoch()
                + delta_secs * 1_000_000_000 + delta_nanos,
    {
        let secs: i128 = self.secs as i128 + delta_secs as i128;
        assert(-20_000_000_000_000_000_000 <= secs <= 20_000_000_000_000_000_000);
        assert(-20_000_000_000_000_000_000_000_000_000 <= secs * 1_000_000_000
            <= 20_000_000_000_000_000_000_000_000_000) by (nonlinear_arith)
            requires
                -20_000_000_000_000_000_000 <= secs <= 20_000_000_000_000_000_000,
        ;
        let total: i128 = secs * 1_000_000_000 + self.nanos as i128 + delta_nanos as i128;
        let lo: i128 = MIN_UNIX_SECS as i128 * 1_000_000_000;
        let hi: i128 = MAX_UNIX_SECS as i128 * 1_000_000_000 + 999_999_999;
        if lo <= total && total <= hi {
            Some(self.plus(delta_secs, delta_nanos))
        } else {
            None
        }
    }

    /// Nanoseconds from `earlier` to this instant (negative when this one comes first).
    pub fn nanos_since(self, earlier: Timestamp) -> (r: i128)
        requires
            self.wf(),
            earlier.wf(),
        ensures
            r == self.nanos_since_epoch() - earlier.nanos_since_epoch(),
    {
        let ds: i128 = self.secs as i128 - earlier.secs as i128;
        let dn: i128 = self.nanos as i128 - earlier.nanos as i128;
        assert(-20_000_000_000_000 <= ds <= 20_000_000_000_000);
        assert(-20_000_000_000_000_000_000_000 <= ds * 1_000_000_000 <= 20_000_000_000_000_000_000_000) by (nonlinear_arith)
            requires -20_000_000_000_000 <= ds <= 20_000_000_000_000;
        ds * 1_000_000_000 + dn
    }
}

} // verus!

//! Points in time, as whole nanoseconds before or after the Unix epoch.

use vstd::prelude::*;

verus! {

/// The signed distance from the Unix epoch, in nanoseconds, of a reading
/// given as a direction, whole seconds and a sub-second part.
pub open spec fn nanos_of_parts(before_epoch: bool, secs: int, subsec_nanos: int) -> int {
    let distance = secs * 1_000_000_000 + subsec_nanos;
    if before_epoch {
        -distance
    } else {
        distance
    }
}

/// A point in time. Its view is the number of nanoseconds since the Unix
/// epoch, negative for a point before it. Two timestamps are ordered as their
/// views are.
#[derive(Clone, Copy, Debug, PartialEq, Eq, Structural)]
pub struct Timestamp {
    nanos: i128,
}

impl View for Timestamp {
    type V = int;

    closed spec fn view(&self) -> int {
        self.nanos as int
    }
}

impl DeepView for Timestamp {
    type V = int;

    open spec fn deep_view(&self) -> int {
        self@
    }
}

impl Timestamp {
    /// The timestamp that lies `nanos` nanoseconds after the Unix epoch.
    pub fn from_nanos(nanos: i128) -> (t: Timestamp)
        ensures
            t@ == nanos,
    {
        Timestamp { nanos }
    }

    /// The timestamp whose distance from the Unix epoch is `secs` seconds and
    /// `subsec_nanos` nanoseconds, before the epoch if `before_epoch` is set.
    pub fn from_parts(before_epoch: bool, secs: u64, subsec_nanos: u32) -> (t: Timestamp)
        ensures
            t@ == nanos_of_parts(before_epoch, secs as int, subsec_nanos as int),
    {
        let whole: i128 = secs as i128 * 1_000_000_000i128;
        let distance: i128 = whole + subsec_nanos as i128;
        if before_epoch {
            Timestamp { nanos: -distance }
        } else {
            Timestamp { nanos: distance }
        }
    }

    /// Whether this timestamp is one that the system clock can show: its
    /// distance from the Unix epoch is a number of whole seconds that fits in
    /// 64 bits and less than a second beyond them.
    pub open spec fn is_clock_reading(self) -> bool {
        exists|before_epoch: bool, secs: u64, subsec_nanos: u32|
            subsec_nanos < 1_000_000_000 && self@ == #[trigger] nanos_of_parts(
                before_epoch,
                secs as int,
                subsec_nanos as int,
            )
    }

    /// The current reading of the system clock. Which point in time it is
    /// depends on the clock; it is one that the clock can show.
    pub fn now() -> (t: Timestamp)
        ensures
            t.is_clock_reading(),
    {
        let (before_epoch, secs, subsec_nanos) = read_clock();
        Timestamp::from_parts(before_epoch, secs, subsec_nanos)
    }

    /// Nanoseconds since the Unix epoch.
    pub fn nanos(&self) -> (n: i128)
        ensures
            n == self@,
    {
        self.nanos
    }

    /// The direction of this timestamp from the Unix epoch (`true` for one
    /// before it), and its distance from the epoch in whole seconds and the
    /// nanoseconds beyond them.
    pub fn to_parts(&self) -> (parts: (bool, u128, u32))
        ensures
            parts.0 == (self@ < 0),
            parts.2 < 1_000_000_000,
            self@ == nanos_of_parts(parts.0, parts.1 as int, parts.2 as int),
    {
        let before_epoch = self.nanos < 0;
        let distance: u128 = if before_epoch {
            (-(self.nanos + 1)) as u128 + 1
        } else {
            self.nanos as u128
        };
        let secs: u128 = distance / 1_000_000_000;
        let subsec_nanos: u128 = distance % 1_000_000_000;
        (before_epoch, secs, subsec_nanos as u32)
    }

    /// Whether this timestamp is not later than `other`.
    pub fn le(&self, other: &Timestamp) -> (b: bool)
        ensures
            b == (self@ <= other@),
    {
        self.nanos <= other.nanos
    }
}

/// Reads the system clock with `std::time::SystemTime::now` and measures the
/// reading against `std::time::UNIX_EPOCH`. The result is the direction of the
/// reading (`true` for one before the epoch), the whole seconds and the
/// nanoseconds beyond them of its distance from the epoch. The values depend
/// on the clock; all that is claimed is that the nanoseconds, which come from
/// `std::time::Duration::subsec_nanos`, are less than one second.
#[verifier::external_body]
fn read_clock() -> (reading: (bool, u64, u32))
    ensures
        reading.2 < 1_000_000_000,
{
    match std::time::SystemTime::now().duration_since(std::time::UNIX_EPOCH) {
        Ok(after) => (false, after.as_secs(), after.subsec_nanos()),
        Err(before) => (true, before.duration().as_secs(), before.duration().subsec_nanos()),
    }
}

} // verus!

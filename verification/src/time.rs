//! POSIX timestamps in milliseconds.

use vstd::prelude::*;

verus! {

/// A point in time, measured in milliseconds since the UNIX epoch.
#[derive(Debug, Clone, Copy, PartialEq, Eq, Structural)]
pub struct Posix {
    milliseconds: i128,
}

#[verifier::external_type_specification]
#[verifier::external_body]
pub struct ExSystemTime(std::time::SystemTime);

/// The mathematical value of a `Posix` time: its milliseconds since the epoch.
impl View for Posix {
    type V = int;

    closed spec fn view(&self) -> int {
        self.milliseconds as int
    }
}

impl Posix {
    /// Creates a new `Posix` instance from a number of milliseconds.
    pub fn from_millis(milliseconds: i128) -> (r: Self)
        ensures
            r@ == milliseconds as int,
    {
        Self { milliseconds }
    }

    /// Returns the time value in milliseconds.
    pub fn as_millis(&self) -> (r: i128)
        ensures
            r as int == self@,
    {
        self.milliseconds
    }

    /// Converts the `Posix` time to a `std::time::SystemTime` instance, or
    /// nothing when the platform cannot represent that point in time.
    ///
    /// Relies on `std::time::Duration::from_millis` and
    /// `std::time::SystemTime::checked_add` on `std::time::UNIX_EPOCH`, whose
    /// documentation says it returns `None` when the sum is out of range;
    /// which points are representable is platform-specific, so the result is
    /// opaque here and nothing is claimed of it. The millisecond count is
    /// taken as an unsigned value, truncated.
    #[verifier::external_body]
    pub fn as_system_time(&self) -> Option<std::time::SystemTime> {
        std::time::UNIX_EPOCH.checked_add(std::time::Duration::from_millis(
            self.milliseconds as u64,
        ))
    }

    /// The milliseconds from `earlier` to `self`, clamped below at zero and
    /// truncated to 64 bits: the saturating distance between two points in
    /// time.
    pub fn millis_since(&self, earlier: &Posix) -> (r: u64)
        requires
            self@ - earlier@ <= i128::MAX,
        ensures
            self@ <= earlier@ ==> r == 0,
            self@ > earlier@ ==> r == (self@ - earlier@) % 0x1_0000_0000_0000_0000,
    {
        if self.milliseconds <= earlier.milliseconds {
            0
        } else {
            let diff = self.milliseconds - earlier.milliseconds;
            let modulus: i128 = 0x1_0000_0000_0000_0000;
            (diff % modulus) as u64
        }
    }
}

} // verus!

//! Decoded date and time components of a directory entry, and their
//! conversion to a scalar timestamp.

use vstd::prelude::*;

verus! {

/// The deliberately approximate scalar form of a date and time: every year
/// counts 365 days and every month 30, with no leap years and no calendar
/// before 1970. The approximation is part of the conversion's contract, not
/// an accident to be corrected silently.
pub open spec fn spec_unix_timestamp(
    year: u16,
    month: u8,
    day: u8,
    hour: u8,
    minute: u8,
    second: u8,
) -> int
    recommends
        year >= 1970,
{
    ((year - 1970) * 365 + month * 30 + day) * 86400 + hour * 3600 + minute * 60 + second
}

/// A date and time in decoded component form.
#[derive(Debug, Clone, Copy, PartialEq, Eq, Structural)]
pub struct FatDateTime {
    pub year: u16,
    pub month: u8,
    pub day: u8,
    pub hour: u8,
    pub minute: u8,
    pub second: u8,
}

impl FatDateTime {
    /// Bundle the given components; no range checking is done here.
    pub fn new(year: u16, month: u8, day: u8, hour: u8, minute: u8, second: u8) -> (r: Self)
        ensures
            r == (FatDateTime { year, month, day, hour, minute, second }),
    {
        FatDateTime { year, month, day, hour, minute, second }
    }

    /// The approximate number of seconds since 1970, per
    /// `spec_unix_timestamp`. Dates before 1970 are outside the domain.
    pub fn to_unix_timestamp(&self) -> (r: u64)
        requires
            self.year >= 1970,
        ensures
            r == spec_unix_timestamp(
                self.year,
                self.month,
                self.day,
                self.hour,
                self.minute,
                self.second,
            ),
    {
        let days = (self.year as u64 - 1970) * 365 + (self.month as u64 * 30) + self.day as u64;
        let seconds = days * 24 * 60 * 60;
        seconds + (self.hour as u64 * 3600) + (self.minute as u64 * 60) + self.second as u64
    }
}

} // verus!

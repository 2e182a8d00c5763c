//! The time of day and the day of the week as numbers.

use vstd::prelude::*;

verus! {

/// A day of the week.
#[derive(Clone, Copy, Debug, PartialEq, Eq, Structural)]
pub enum Weekday {
    Mon,
    Tue,
    Wed,
    Thu,
    Fri,
    Sat,
    Sun,
}

/// The local wall-clock time at one moment.
#[derive(Clone, Copy, Debug)]
pub struct LocalTime {
    pub hour: u8,
    pub minute: u8,
    pub second: u8,
    pub weekday: Weekday,
}

/// The number whose decimal digits are the two digits of the hour, of the
/// minute and of the second in a row, so that 14:05:09 gives 140509; 0 where
/// the three are no time of day. A second of 60, a leap second, is one.
pub open spec fn time_code_of(hour: int, minute: int, second: int) -> int {
    if 0 <= hour < 24 && 0 <= minute < 60 && 0 <= second <= 60 {
        hour * 10000 + minute * 100 + second
    } else {
        0
    }
}

/// The number of a day of the week, from 0 for Monday to 6 for Sunday.
pub open spec fn weekday_code_of(day: Weekday) -> int {
    match day {
        Weekday::Mon => 0,
        Weekday::Tue => 1,
        Weekday::Wed => 2,
        Weekday::Thu => 3,
        Weekday::Fri => 4,
        Weekday::Sat => 5,
        Weekday::Sun => 6,
    }
}

impl LocalTime {
    /// The time of day as a number.
    pub fn time_code(&self) -> (code: u32)
        ensures
            code == time_code_of(self.hour as int, self.minute as int, self.second as int),
            code <= 236060,
    {
        if self.hour < 24 && self.minute < 60 && self.second <= 60 {
            self.hour as u32 * 10000 + self.minute as u32 * 100 + self.second as u32
        } else {
            0
        }
    }

    /// The day of the week as a number.
    pub fn weekday_code(&self) -> (code: u8)
        ensures
            code == weekday_code_of(self.weekday),
            code <= 6,
    {
        match self.weekday {
            Weekday::Mon => 0,
            Weekday::Tue => 1,
            Weekday::Wed => 2,
            Weekday::Thu => 3,
            Weekday::Fri => 4,
            Weekday::Sat => 5,
            Weekday::Sun => 6,
        }
    }
}

} // verus!

//! Calendar view modes and month arithmetic.
use vstd::prelude::*;

verus! {

/// Calendar view mode.
#[derive(Clone, Copy, PartialEq, Eq, Structural, Debug)]
pub enum CalendarView {
    /// Month view: a grid of days.
    Month,
    /// Week view: seven columns with hours.
    Week,
    /// Day view: a single day with hours.
    Day,
}

/// The number of days in a month of the Gregorian calendar; leap years have
/// 29 days in the second month. An out-of-range month counts 30 days.
pub open spec fn spec_days_in_month(year: int, month: u32) -> u32 {
    if month == 1 || month == 3 || month == 5 || month == 7 || month == 8 || month == 10 || month
        == 12 {
        31
    } else if month == 4 || month == 6 || month == 9 || month == 11 {
        30
    } else if month == 2 {
        if (year % 4 == 0 && year % 100 != 0) || year % 400 == 0 {
            29
        } else {
            28
        }
    } else {
        30
    }
}

/// The number of days in a month, with February following the Gregorian
/// leap-year rule.
pub fn days_in_month(year: i32, month: u32) -> (r: u32)
    ensures
        r == spec_days_in_month(year as int, month),
{
    match month {
        1 | 3 | 5 | 7 | 8 | 10 | 12 => 31,
        4 | 6 | 9 | 11 => 30,
        2 => {
            if (year % 4 == 0 && year % 100 != 0) || year % 400 == 0 {
                29
            } else {
                28
            }
        },
        _ => 30,
    }
}

} // verus!

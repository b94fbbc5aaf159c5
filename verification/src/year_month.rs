//! Calendar months in the supported reporting window, with their first and
//! last days rendered in the `YYYYMMDD` form the page-view API expects.

use crate::text::{dec_str, pad2, u64_to_string, u64_to_string_pad2};
use vstd::prelude::*;
use vstd::string::StringExecFns;

verus! {

/// Why a year/month pair was rejected.
#[derive(Debug, Clone, Copy, PartialEq, Eq, Structural)]
pub enum DateError {
    BadMonth,
    BadYear,
}

/// A calendar month between 2000-01 and 2030-12 inclusive.
#[derive(Debug, Clone, Copy, PartialEq, Eq, Structural)]
pub struct YearMonth {
    year: i32,
    month: u32,
}

pub open spec fn spec_is_leap_year(y: int) -> bool {
    (y % 4 == 0 && y % 100 != 0) || y % 400 == 0
}

pub open spec fn spec_days_in_month(y: int, m: int) -> int {
    if m == 2 {
        if spec_is_leap_year(y) {
            29
        } else {
            28
        }
    } else if m == 4 || m == 6 || m == 9 || m == 11 {
        30
    } else {
        31
    }
}

/// A day rendered as `YYYYMMDD`; years in the supported window always take
/// four digits.
pub open spec fn spec_ymd(y: int, m: int, d: int) -> Seq<char> {
    dec_str(y as nat) + pad2(m as nat) + pad2(d as nat)
}

impl YearMonth {
    pub closed spec fn spec_year(&self) -> int {
        self.year as int
    }

    pub closed spec fn spec_month(&self) -> int {
        self.month as int
    }

    pub open spec fn wf(&self) -> bool {
        2000 <= self.spec_year() <= 2030 && 1 <= self.spec_month() <= 12
    }

    /// Accepts exactly the months of the supported window: year within
    /// [2000, 2030] and month within [1, 12]; the month is checked first.
    pub fn new(year: i32, month: u32) -> (r: Result<Self, DateError>)
        ensures
            r is Ok <==> (2000 <= year <= 2030 && 1 <= month <= 12),
            r matches Ok(ym) ==> ym.spec_year() == year && ym.spec_month() == month && ym.wf(),
            r matches Err(e) ==> (e == DateError::BadMonth <==> (month == 0 || month > 12)),
    {
        if month == 0 || month > 12 {
            return Err(DateError::BadMonth);
        }
        if year < 2000 || year > 2030 {
            return Err(DateError::BadYear);
        }
        Ok(Self { year, month })
    }

    pub fn year(&self) -> (r: i32)
        ensures
            r == self.spec_year(),
    {
        self.year
    }

    pub fn month(&self) -> (r: u32)
        ensures
            r == self.spec_month(),
    {
        self.month
    }

    pub fn is_leap_year(&self) -> (r: bool)
        requires
            self.wf(),
        ensures
            r == spec_is_leap_year(self.spec_year()),
    {
        (self.year % 4 == 0 && self.year % 100 != 0) || self.year % 400 == 0
    }

    pub fn days_in_month(&self) -> (r: u32)
        requires
            self.wf(),
        ensures
            r == spec_days_in_month(self.spec_year(), self.spec_month()),
    {
        if self.month == 2 {
            if self.is_leap_year() {
                29
            } else {
                28
            }
        } else if self.month == 4 || self.month == 6 || self.month == 9 || self.month == 11 {
            30
        } else {
            31
        }
    }

    /// The first calendar day of the month, as `YYYYMMDD`.
    pub fn first_day(&self) -> (r: Result<String, DateError>)
        requires
            self.wf(),
        ensures
            r matches Ok(s) && s@ == spec_ymd(self.spec_year(), self.spec_month(), 1),
    {
        let mut s = u64_to_string(self.year as u64);
        let m = u64_to_string_pad2(self.month as u64);
        s.append(m.as_str());
        let d = u64_to_string_pad2(1);
        s.append(d.as_str());
        Ok(s)
    }

    /// The last calendar day of the month, as `YYYYMMDD`; February respects
    /// leap years.
    pub fn last_day(&self) -> (r: Result<String, DateError>)
        requires
            self.wf(),
        ensures
            r matches Ok(s) && s@ == spec_ymd(
                self.spec_year(),
                self.spec_month(),
                spec_days_in_month(self.spec_year(), self.spec_month()),
            ),
    {
        let mut s = u64_to_string(self.year as u64);
        let m = u64_to_string_pad2(self.month as u64);
        s.append(m.as_str());
        let d = u64_to_string_pad2(self.days_in_month() as u64);
        s.append(d.as_str());
        Ok(s)
    }

    /// The month rendered as `YYYY-MM`.
    pub fn to_string(&self) -> (s: String)
        requires
            self.wf(),
        ensures
            s@ == dec_str(self.spec_year() as nat) + seq!['-'] + pad2(self.spec_month() as nat),
    {
        let mut s = u64_to_string(self.year as u64);
        crate::text::push_char(&mut s, '-');
        let m = u64_to_string_pad2(self.month as u64);
        s.append(m.as_str());
        proof {
            assert(s@ =~= dec_str(self.spec_year() as nat) + seq!['-'] + pad2(
                self.spec_month() as nat,
            ));
        }
        s
    }

    /// The month rendered as `YYYYMM`, the name of the publication
    /// subdirectory for the month.
    pub fn month_subdir(&self) -> (s: String)
        requires
            self.wf(),
        ensures
            s@ == dec_str(self.spec_year() as nat) + pad2(self.spec_month() as nat),
    {
        let mut s = u64_to_string(self.year as u64);
        let m = u64_to_string_pad2(self.month as u64);
        s.append(m.as_str());
        s
    }
}

} // verus!

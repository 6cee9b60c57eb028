//! Calendar values: the twelve months and a day/month/year date whose
//! construction enforces the Gregorian calendar, including leap years.

use vstd::prelude::*;
use vstd::string::StrSliceExecFns;
use vstd::string::StringExecFns;

use crate::text::dec2_str;
use crate::text::dec4_str;
use crate::text::dec_str;
use crate::text::digit_seq_val;
use crate::text::is_digit;
use crate::text::is_digit_seq;
use crate::text::lemma_dec2_str_val;
use crate::text::lemma_dec4_str_val;
use crate::text::lemma_digit_seq_val_bounds;
use crate::text::lemma_split_chars_concat;
use crate::text::lemma_split_chars_no_sep;
use crate::text::parse_u32_digits;
use crate::text::pow10;
use crate::text::push_char;
use crate::text::push_dec2;
use crate::text::push_dec4;
use crate::text::push_u64_dec;
use crate::text::split_chars;
use crate::text::split_str;

verus! {

/// A month of the year.
#[derive(Debug, Clone, Copy, PartialEq, Eq, Structural)]
pub enum Month {
    January,
    February,
    March,
    April,
    May,
    June,
    July,
    August,
    September,
    October,
    November,
    December,
}

/// Why a number could not be turned into a [`Month`].
#[derive(Debug, Clone, Copy, PartialEq, Eq, Structural)]
pub enum MonthError {
    /// The number is outside `1..=12`; it is carried along.
    InvalidMonth(i32),
}

/// Why a day/month/year combination was rejected by [`Date::new`].
#[derive(Debug, Clone, Copy, PartialEq, Eq, Structural)]
pub enum DateError {
    /// The day is below 1.
    DayTooLow { day: u8 },
    /// The day exceeds the number of days of the month in that year.
    DayTooHigh { day: u8, max: u8 },
}

impl Month {
    /// The number of the month, 1 for January through 12 for December.
    pub open spec fn spec_number(self) -> int {
        match self {
            Month::January => 1,
            Month::February => 2,
            Month::March => 3,
            Month::April => 4,
            Month::May => 5,
            Month::June => 6,
            Month::July => 7,
            Month::August => 8,
            Month::September => 9,
            Month::October => 10,
            Month::November => 11,
            Month::December => 12,
        }
    }

    /// The month standing at a given number, for numbers in `1..=12`.
    pub open spec fn spec_from_number(n: int) -> Month
        recommends
            1 <= n <= 12,
    {
        if n == 1 {
            Month::January
        } else if n == 2 {
            Month::February
        } else if n == 3 {
            Month::March
        } else if n == 4 {
            Month::April
        } else if n == 5 {
            Month::May
        } else if n == 6 {
            Month::June
        } else if n == 7 {
            Month::July
        } else if n == 8 {
            Month::August
        } else if n == 9 {
            Month::September
        } else if n == 10 {
            Month::October
        } else if n == 11 {
            Month::November
        } else {
            Month::December
        }
    }

    /// A month is the month standing at its own number.
    pub proof fn lemma_number_inverse(m: Month)
        ensures
            Month::spec_from_number(m.spec_number()) == m,
    {
    }

    /// The number of the month, 1 through 12.
    pub fn number(self) -> (n: u8)
        ensures
            n == self.spec_number(),
            1 <= n <= 12,
    {
        match self {
            Month::January => 1,
            Month::February => 2,
            Month::March => 3,
            Month::April => 4,
            Month::May => 5,
            Month::June => 6,
            Month::July => 7,
            Month::August => 8,
            Month::September => 9,
            Month::October => 10,
            Month::November => 11,
            Month::December => 12,
        }
    }

    /// Turns a number into the month it stands for: exactly the numbers
    /// `1..=12` are accepted, anything else is reported back inside the
    /// error.
    pub fn from_number(number: i32) -> (r: Result<Month, MonthError>)
        ensures
            1 <= number <= 12 <==> r is Ok,
            r matches Ok(m) ==> m == Month::spec_from_number(number as int),
            !(1 <= number <= 12) ==> r == Err::<Month, MonthError>(
                MonthError::InvalidMonth(number),
            ),
    {
        match number {
            1 => Ok(Month::January),
            2 => Ok(Month::February),
            3 => Ok(Month::March),
            4 => Ok(Month::April),
            5 => Ok(Month::May),
            6 => Ok(Month::June),
            7 => Ok(Month::July),
            8 => Ok(Month::August),
            9 => Ok(Month::September),
            10 => Ok(Month::October),
            11 => Ok(Month::November),
            12 => Ok(Month::December),
            _ => Err(MonthError::InvalidMonth(number)),
        }
    }

    /// The month's name, in French, the library's one locale.
    pub open spec fn spec_name(self) -> Seq<char> {
        match self {
            Month::January => "janvier"@,
            Month::February => "février"@,
            Month::March => "mars"@,
            Month::April => "avril"@,
            Month::May => "mai"@,
            Month::June => "juin"@,
            Month::July => "juillet"@,
            Month::August => "août"@,
            Month::September => "septembre"@,
            Month::October => "octobre"@,
            Month::November => "novembre"@,
            Month::December => "décembre"@,
        }
    }

    /// The month's name, in French, the library's one locale.
    pub fn name(self) -> (r: String)
        ensures
            r@ == self.spec_name(),
    {
        match self {
            Month::January => String::from_str("janvier"),
            Month::February => String::from_str("février"),
            Month::March => String::from_str("mars"),
            Month::April => String::from_str("avril"),
            Month::May => String::from_str("mai"),
            Month::June => String::from_str("juin"),
            Month::July => String::from_str("juillet"),
            Month::August => String::from_str("août"),
            Month::September => String::from_str("septembre"),
            Month::October => String::from_str("octobre"),
            Month::November => String::from_str("novembre"),
            Month::December => String::from_str("décembre"),
        }
    }
}

/// The Gregorian leap-year rule: divisible by 4 and not by 100, or
/// divisible by 400.
pub open spec fn spec_is_leap_year(year: int) -> bool {
    (year % 4 == 0 && year % 100 != 0) || year % 400 == 0
}

/// How many days a month has in a given year: the standard table, with
/// February depending on the leap-year rule.
pub open spec fn spec_days_in_month(month: Month, year: int) -> int {
    match month {
        Month::January => 31,
        Month::February => if spec_is_leap_year(year) {
            29
        } else {
            28
        },
        Month::March => 31,
        Month::April => 30,
        Month::May => 31,
        Month::June => 30,
        Month::July => 31,
        Month::August => 31,
        Month::September => 30,
        Month::October => 31,
        Month::November => 30,
        Month::December => 31,
    }
}

/// A day/month/year combination that exists in the Gregorian calendar.
pub open spec fn spec_valid_date(day: int, month: Month, year: int) -> bool {
    1 <= day && day <= spec_days_in_month(month, year)
}

/// The mathematical content of a [`Date`]: its day, month and year.
pub ghost struct DateView {
    pub day: int,
    pub month: Month,
    pub year: int,
}

/// A date of the calendar. Values can only be built through [`Date::new`]
/// or the parsers, so every `Date` satisfies [`Date::wf`].
#[derive(Debug, Clone, Copy, PartialEq, Eq, Structural)]
pub struct Date {
    day: u8,
    month: Month,
    year: u16,
}

impl View for Date {
    type V = DateView;

    closed spec fn view(&self) -> DateView {
        DateView { day: self.day as int, month: self.month, year: self.year as int }
    }
}

/// The strict `YYYY sep MM sep DD` reading of a character sequence: the
/// first three separated components must be exactly four, two and two
/// digits wide and name a date of the calendar; anything else is absence.
pub open spec fn spec_parse_date(s: Seq<char>, sep: char) -> Option<DateView> {
    let parts = split_chars(s, sep);
    if parts.len() < 3 {
        None
    } else {
        let ys = parts[0];
        let ms = parts[1];
        let ds = parts[2];
        if ys.len() == 4 && ms.len() == 2 && ds.len() == 2 && is_digit_seq(ys) && is_digit_seq(ms)
            && is_digit_seq(ds) {
            let y = digit_seq_val(ys);
            let m = digit_seq_val(ms);
            let d = digit_seq_val(ds);
            if 1 <= m <= 12 && spec_valid_date(d, Month::spec_from_number(m), y) {
                Some(DateView { day: d, month: Month::spec_from_number(m), year: y })
            } else {
                None
            }
        } else {
            None
        }
    }
}

/// The `YYYY sep MM sep DD` writing of a date, zero-padded to four, two
/// and two digits.
pub open spec fn spec_date_to_yyyy_mm_dd(dv: DateView, sep: char) -> Seq<char> {
    dec4_str(dv.year) + seq![sep] + dec2_str(dv.month.spec_number()) + seq![sep] + dec2_str(dv.day)
}

/// The displayed form of a date: day, French month name and year,
/// separated by single spaces.
pub open spec fn spec_date_display(dv: DateView) -> Seq<char> {
    dec_str(dv.day) + seq![' '] + dv.month.spec_name() + seq![' '] + dec_str(dv.year)
}

impl Date {
    /// The date exists in the calendar.
    pub open spec fn wf(self) -> bool {
        spec_valid_date(self@.day, self@.month, self@.year)
    }

    /// Two dates with the same day, month and year are the same date.
    pub proof fn lemma_view_injective(d1: Date, d2: Date)
        requires
            d1@ == d2@,
        ensures
            d1 == d2,
    {
    }

    /// The day of the month.
    pub fn day(&self) -> (d: u8)
        ensures
            d == self@.day,
    {
        self.day
    }

    /// The month.
    pub fn month(&self) -> (m: Month)
        ensures
            m == self@.month,
    {
        self.month
    }

    /// The year.
    pub fn year(&self) -> (y: u16)
        ensures
            y == self@.year,
    {
        self.year
    }

    /// Builds a date, accepting exactly the combinations that exist in the
    /// calendar; a day of zero and a day beyond the month's length are
    /// rejected with distinct errors.
    pub fn new(day: u8, month: Month, year: u16) -> (r: Result<Date, DateError>)
        ensures
            r is Ok <==> spec_valid_date(day as int, month, year as int),
            r matches Ok(d) ==> d@ == (DateView { day: day as int, month, year: year as int })
                && d.wf(),
            day > spec_days_in_month(month, year as int) ==> r == Err::<Date, DateError>(
                DateError::DayTooHigh { day, max: spec_days_in_month(month, year as int) as u8 },
            ),
            day == 0 && day <= spec_days_in_month(month, year as int) ==> r == Err::<
                Date,
                DateError,
            >(DateError::DayTooLow { day }),
    {
        let date = Date { day, month, year };
        let max_day = date.nb_days_in_month(month);
        if day > max_day {
            Err(DateError::DayTooHigh { day, max: max_day })
        } else if day < 1 {
            Err(DateError::DayTooLow { day })
        } else {
            Ok(date)
        }
    }

    /// Whether the date's year is a leap year, that is, whether its
    /// February has 29 days.
    pub fn is_leap_year(&self) -> (r: bool)
        ensures
            r == spec_is_leap_year(self@.year),
    {
        self.year % 4 == 0 && self.year % 100 != 0 || self.year % 400 == 0
    }

    /// How many days the given month has in the year of `self`.
    pub fn nb_days_in_month(&self, month: Month) -> (r: u8)
        ensures
            r == spec_days_in_month(month, self@.year),
    {
        match month {
            Month::January
            | Month::March
            | Month::May
            | Month::July
            | Month::August
            | Month::October
            | Month::December => 31,
            Month::April | Month::June | Month::September | Month::November => 30,
            Month::February => {
                if self.is_leap_year() {
                    29
                } else {
                    28
                }
            },
        }
    }

    /// Parses the strict `YYYY sep MM sep DD` layout, per
    /// [`spec_parse_date`]: absence, never an error, on anything
    /// malformed, so that a row mapper can skip bad rows silently.
    pub fn from_yyyy_mm_dd(text: &str, sep: char) -> (r: Option<Date>)
        ensures
            match spec_parse_date(text@, sep) {
                Some(dv) => r matches Some(d) && d@ == dv,
                None => r is None,
            },
            r matches Some(d) ==> d.wf(),
    {
        let parts = split_str(text, sep);
        proof {
            assert(parts.deep_view() == split_chars(text@, sep));
            assert(pow10(0) == 1);
            assert(pow10(1) == 10);
            assert(pow10(2) == 100);
            assert(pow10(3) == 1000);
            assert(pow10(4) == 10000);
        }
        if parts.len() < 3 {
            return None;
        }
        proof {
            assert(parts.deep_view()[0] == parts@[0]@);
            assert(parts.deep_view()[1] == parts@[1]@);
            assert(parts.deep_view()[2] == parts@[2]@);
        }
        let ys: &String = &parts[0];
        let ms: &String = &parts[1];
        let ds: &String = &parts[2];
        if ys.as_str().unicode_len() != 4 || ms.as_str().unicode_len() != 2
            || ds.as_str().unicode_len() != 2 {
            return None;
        }
        proof {
            if is_digit_seq(ys@) {
                lemma_digit_seq_val_bounds(ys@);
            }
            if is_digit_seq(ms@) {
                lemma_digit_seq_val_bounds(ms@);
            }
            if is_digit_seq(ds@) {
                lemma_digit_seq_val_bounds(ds@);
            }
        }
        let y = match parse_u32_digits(ys.as_str()) {
            Some(v) => v,
            None => {
                return None;
            },
        };
        let m = match parse_u32_digits(ms.as_str()) {
            Some(v) => v,
            None => {
                return None;
            },
        };
        let d = match parse_u32_digits(ds.as_str()) {
            Some(v) => v,
            None => {
                return None;
            },
        };
        let month = match Month::from_number(m as i32) {
            Ok(month) => month,
            Err(_) => {
                return None;
            },
        };
        match Date::new(d as u8, month, y as u16) {
            Ok(date) => Some(date),
            Err(_) => None,
        }
    }

    /// The `YYYY sep MM sep DD` writing of the date, zero-padded, per
    /// [`spec_date_to_yyyy_mm_dd`].
    pub fn to_yyyy_mm_dd(&self, sep: char) -> (r: String)
        ensures
            r@ == spec_date_to_yyyy_mm_dd(self@, sep),
    {
        let mut out = String::new();
        push_dec4(&mut out, self.year as u64);
        push_char(&mut out, sep);
        push_dec2(&mut out, self.month.number() as u64);
        push_char(&mut out, sep);
        push_dec2(&mut out, self.day as u64);
        proof {
            assert(out@ =~= spec_date_to_yyyy_mm_dd(self@, sep));
        }
        out
    }

    /// The displayed form of the date, per [`spec_date_display`]: for
    /// example the 15th of September 2025 reads `15 septembre 2025`.
    pub fn to_display_string(&self) -> (r: String)
        ensures
            r@ == spec_date_display(self@),
    {
        let mut out = String::new();
        push_u64_dec(&mut out, self.day as u64);
        push_char(&mut out, ' ');
        let name = self.month.name();
        out.append(name.as_str());
        push_char(&mut out, ' ');
        push_u64_dec(&mut out, self.year as u64);
        proof {
            assert(out@ =~= spec_date_display(self@));
        }
        out
    }
}

/// Writing a valid date in the `YYYY sep MM sep DD` layout and parsing it
/// back yields the same date, for any non-digit separator and any year
/// the four-digit layout can carry. Together with [`Date::new`]'s
/// contract this is the construct-display-reparse round trip.
pub proof fn lemma_date_round_trip(day: u8, month: Month, year: u16, sep: char)
    requires
        spec_valid_date(day as int, month, year as int),
        year <= 9999,
        !is_digit(sep),
    ensures
        spec_parse_date(
            spec_date_to_yyyy_mm_dd(
                DateView { day: day as int, month, year: year as int },
                sep,
            ),
            sep,
        ) == Some(DateView { day: day as int, month, year: year as int }),
{
    let dv = DateView { day: day as int, month, year: year as int };
    let a = dec4_str(dv.year);
    let b = dec2_str(dv.month.spec_number());
    let c = dec2_str(dv.day);
    lemma_dec4_str_val(dv.year);
    lemma_dec2_str_val(dv.month.spec_number());
    lemma_dec2_str_val(dv.day);
    assert(!a.contains(sep)) by {
        assert(forall|i: int| 0 <= i < a.len() ==> is_digit(#[trigger] a[i]));
    }
    assert(!b.contains(sep)) by {
        assert(forall|i: int| 0 <= i < b.len() ==> is_digit(#[trigger] b[i]));
    }
    assert(!c.contains(sep)) by {
        assert(forall|i: int| 0 <= i < c.len() ==> is_digit(#[trigger] c[i]));
    }
    let s = spec_date_to_yyyy_mm_dd(dv, sep);
    assert(s =~= a + seq![sep] + (b + seq![sep] + c));
    lemma_split_chars_concat(a, b + seq![sep] + c, sep);
    lemma_split_chars_concat(b, c, sep);
    lemma_split_chars_no_sep(c, sep);
    let parts = split_chars(s, sep);
    assert(parts =~~= seq![a, b, c]);
    assert(parts[0] == a && parts[1] == b && parts[2] == c);
    Month::lemma_number_inverse(month);
}

} // verus!

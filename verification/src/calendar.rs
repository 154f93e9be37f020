//! Calendar days and their distance from the first day of 1970.

use vstd::prelude::*;
use crate::split::split_pieces;
use crate::split;
use crate::text::{join2, join3, join4, join5, parse_number, zero_padded_text};
use crate::text;

verus! {

/// A day of the Gregorian calendar, as far as its fields name one.
#[derive(Clone, Copy, Debug, Eq, Ord, PartialEq, PartialOrd, Structural)]
pub struct CalendarDate {
    pub year: i32,
    pub month: u32,
    pub day: u32,
}

/// Whether a year has 366 days.
pub open spec fn is_leap_year(year: int) -> bool {
    year % 4 == 0 && (year % 100 != 0 || year % 400 == 0)
}

/// How many days a month has.
pub open spec fn month_length(year: int, month: int) -> int {
    if month == 2 {
        if is_leap_year(year) {
            29
        } else {
            28
        }
    } else if month == 4 || month == 6 || month == 9 || month == 11 {
        30
    } else {
        31
    }
}

/// A year, a month and a day, whether or not the calendar has such a day.
pub struct Civil {
    pub year: int,
    pub month: int,
    pub day: int,
}

impl Civil {
    /// Whether the calendar has this day.
    pub open spec fn is_valid(self) -> bool {
        &&& 1 <= self.month <= 12
        &&& 1 <= self.day <= month_length(self.year, self.month)
    }

    /// Whether this day comes before another, field by field.
    pub open spec fn is_before(self, other: Civil) -> bool {
        ||| self.year < other.year
        ||| self.year == other.year && self.month < other.month
        ||| self.year == other.year && self.month == other.month && self.day < other.day
    }

    /// The day after this one.
    pub open spec fn successor(self) -> Civil {
        if self.day < month_length(self.year, self.month) {
            Civil { year: self.year, month: self.month, day: self.day + 1 }
        } else if self.month < 12 {
            Civil { year: self.year, month: self.month + 1, day: 1 }
        } else {
            Civil { year: self.year + 1, month: 1, day: 1 }
        }
    }

    /// The year that this day falls in when years begin with March.
    pub open spec fn march_year(self) -> int {
        if self.month <= 2 {
            self.year - 1
        } else {
            self.year
        }
    }

    /// How many months after March this day's month comes.
    pub open spec fn months_after_march(self) -> int {
        if self.month <= 2 {
            self.month + 9
        } else {
            self.month - 3
        }
    }

    /// How many days this day comes after the first of January 1970.
    pub open spec fn day_number(self) -> int {
        days_before_march_year(self.march_year()) + (153 * self.months_after_march() + 2) / 5
            + self.day - 1 - 719_468
    }
}

/// How many days the years before `year` have, counted from the first of March
/// of the year 0.
pub open spec fn days_before_march_year(year: int) -> int {
    365 * year + year / 4 - year / 100 + year / 400
}

impl View for CalendarDate {
    type V = Civil;

    open spec fn view(&self) -> Civil {
        Civil { year: self.year as int, month: self.month as int, day: self.day as int }
    }
}

/// The day that comes `days` days after the first of January 1970.
pub open spec fn civil(days: int) -> Civil {
    choose|date: Civil| #[trigger] date.is_valid() && date.day_number() == days
}

/// That day as a date. A year outside of the range of its field is cut to its
/// lowest 32 bits.
pub open spec fn civil_date(days: int) -> CalendarDate {
    CalendarDate {
        year: civil(days).year as i32,
        month: civil(days).month as u32,
        day: civil(days).day as u32,
    }
}

proof fn lemma_march_year_length(year: int)
    ensures
        days_before_march_year(year + 1) == days_before_march_year(year) + 365 + if is_leap_year(
            year + 1,
        ) {
            1int
        } else {
            0int
        },
{
}

proof fn lemma_march_years_grow(a: int, b: int)
    requires
        a < b,
    ensures
        days_before_march_year(a + 1) <= days_before_march_year(b),
    decreases b - a,
{
    if a + 1 < b {
        lemma_march_year_length(b - 1);
        lemma_march_years_grow(a, b - 1);
    }
}

/// A valid day lies in its year that begins with March.
proof fn lemma_in_march_year(date: Civil)
    requires
        date.is_valid(),
    ensures
        days_before_march_year(date.march_year()) <= date.day_number() + 719_468,
        date.day_number() + 719_468 < days_before_march_year(date.march_year() + 1),
{
    lemma_march_year_length(date.march_year());
}

/// The order of the days is the order of their numbers.
pub proof fn lemma_day_numbers_are_ordered(a: Civil, b: Civil)
    requires
        a.is_valid(),
        b.is_valid(),
    ensures
        a.is_before(b) <==> a.day_number() < b.day_number(),
        a == b <==> a.day_number() == b.day_number(),
{
    lemma_in_march_year(a);
    lemma_in_march_year(b);
    if a.march_year() < b.march_year() {
        lemma_march_years_grow(a.march_year(), b.march_year());
    } else if b.march_year() < a.march_year() {
        lemma_march_years_grow(b.march_year(), a.march_year());
    }
}

/// The number of the day after a day is one more, and day zero is the first of
/// January 1970: together these two fix the number of every day.
pub proof fn lemma_day_numbers_count_days(date: Civil)
    requires
        date.is_valid(),
    ensures
        date.successor().is_valid(),
        date.successor().day_number() == date.day_number() + 1,
        (Civil { year: 1970, month: 1, day: 1 }).day_number() == 0,
{
    lemma_march_year_length(date.march_year());
}

/// How many days a date comes after the first of January 1970.
pub fn days_from_civil(date: CalendarDate) -> (days: i64)
    ensures
        days == date@.day_number(),
{
    let adjusted_year: i64 = (date.year as i64) - if date.month <= 2 {
        1i64
    } else {
        0i64
    };
    let era: i64 = if adjusted_year >= 0 {
        adjusted_year
    } else {
        adjusted_year - 399
    } / 400;
    let year_of_era: i64 = adjusted_year - era * 400;
    let month: i64 = date.month as i64;
    let day_of_year: i64 = (153 * (month + if month > 2 {
        -3i64
    } else {
        9i64
    }) + 2) / 5 + (date.day as i64) - 1;
    let day_of_era: i64 = year_of_era * 365 + year_of_era / 4 - year_of_era / 100 + day_of_year;
    era * 146_097 + day_of_era - 719_468
}

/// The year of a cycle of 400 years that a day of the cycle falls in: the
/// years are those that begin with March.
proof fn lemma_year_of_era(day_of_era: int, year_of_era: int)
    requires
        0 <= day_of_era < 146_097,
        year_of_era == (day_of_era - day_of_era / 1_460 + day_of_era / 36_524 - day_of_era
            / 146_096) / 365,
    ensures
        0 <= year_of_era < 400,
        365 * year_of_era + year_of_era / 4 - year_of_era / 100 <= day_of_era,
        year_of_era < 399 ==> day_of_era < 365 * (year_of_era + 1) + (year_of_era + 1) / 4 - (
        year_of_era + 1) / 100,
{
}

/// How a year of a cycle, the cycle and the day of the year make up a day number.
proof fn lemma_day_of_year(era: int, year_of_era: int, day_of_era: int, day_of_year: int)
    requires
        0 <= day_of_era < 146_097,
        0 <= year_of_era < 400,
        365 * year_of_era + year_of_era / 4 - year_of_era / 100 <= day_of_era,
        year_of_era < 399 ==> day_of_era < 365 * (year_of_era + 1) + (year_of_era + 1) / 4 - (
        year_of_era + 1) / 100,
        day_of_year == day_of_era - (365 * year_of_era + year_of_era / 4 - year_of_era / 100),
    ensures
        0 <= day_of_year <= 365,
        day_of_year == 365 ==> is_leap_year(year_of_era + era * 400 + 1),
        days_before_march_year(year_of_era + era * 400) + day_of_year == era * 146_097
            + day_of_era,
{
}

/// The month and the day of the month of a day of a year that begins with March.
proof fn lemma_month_and_day(year: int, day_of_year: int, month_index: int, found: Civil)
    requires
        0 <= day_of_year <= 365,
        day_of_year == 365 ==> is_leap_year(year + 1),
        month_index == (5 * day_of_year + 2) / 153,
        found.day == day_of_year - (153 * month_index + 2) / 5 + 1,
        found.month == month_index + if month_index < 10 {
            3int
        } else {
            -9int
        },
        found.year == year + if found.month <= 2 {
            1int
        } else {
            0int
        },
    ensures
        0 <= month_index <= 11,
        found.is_valid(),
        found.day_number() == days_before_march_year(year) + day_of_year - 719_468,
{
}

/// A day number determines its day.
pub proof fn lemma_civil_is(date: Civil)
    requires
        date.is_valid(),
    ensures
        civil(date.day_number()) == date,
{
    let found = civil(date.day_number());
    assert(found.is_valid() && found.day_number() == date.day_number());
    lemma_day_numbers_are_ordered(found, date);
}

/// Every day number has its day.
pub proof fn lemma_civil(days: int)
    ensures
        civil(days).is_valid(),
        civil(days).day_number() == days,
{
    let era = (days + 719_468) / 146_097;
    let day_of_era = (days + 719_468) % 146_097;
    let year_of_era = (day_of_era - day_of_era / 1_460 + day_of_era / 36_524 - day_of_era
        / 146_096) / 365;
    lemma_year_of_era(day_of_era, year_of_era);
    let day_of_year = day_of_era - (365 * year_of_era + year_of_era / 4 - year_of_era / 100);
    lemma_day_of_year(era, year_of_era, day_of_era, day_of_year);
    let month_index = (5 * day_of_year + 2) / 153;
    let month = month_index + if month_index < 10 {
        3int
    } else {
        -9int
    };
    let year = year_of_era + era * 400;
    let found = Civil {
        year: year + if month <= 2 {
            1int
        } else {
            0int
        },
        month,
        day: day_of_year - (153 * month_index + 2) / 5 + 1,
    };
    lemma_month_and_day(year, day_of_year, month_index, found);
    lemma_civil_is(found);
}

/// The day that comes `days_since_epoch` days after the first of January 1970.
/// A year outside of the range of its field is cut to its lowest 32 bits.
pub fn civil_from_days(days_since_epoch: i64) -> (date: CalendarDate)
    requires
        days_since_epoch <= i64::MAX - 719_468,
    ensures
        date == civil_date(days_since_epoch as int),
{
    let day_zero: i64 = days_since_epoch + 719_468;
    let era: i64 = if day_zero >= 0 {
        day_zero
    } else {
        day_zero - 146_096
    } / 146_097;
    let day_of_era: i64 = day_zero - era * 146_097;
    let year_of_era: i64 = (day_of_era - day_of_era / 1_460 + day_of_era / 36_524 - day_of_era
        / 146_096) / 365;
    proof {
        lemma_year_of_era(day_of_era as int, year_of_era as int);
    }
    let year: i64 = year_of_era + era * 400;
    let day_of_year: i64 = day_of_era - (365 * year_of_era + year_of_era / 4 - year_of_era / 100);
    proof {
        lemma_day_of_year(
            era as int,
            year_of_era as int,
            day_of_era as int,
            day_of_year as int,
        );
    }
    let month_index: i64 = (5 * day_of_year + 2) / 153;
    let day: i64 = day_of_year - (153 * month_index + 2) / 5 + 1;
    let month: i64 = month_index + if month_index < 10 {
        3i64
    } else {
        -9i64
    };
    let civil_year: i64 = year + if month <= 2 {
        1i64
    } else {
        0i64
    };
    proof {
        let found = Civil { year: civil_year as int, month: month as int, day: day as int };
        lemma_month_and_day(year as int, day_of_year as int, month_index as int, found);
        lemma_civil_is(found);
        assert(civil(days_since_epoch as int) == found);
    }
    CalendarDate {
        year: #[verifier::truncate] (civil_year as i32),
        month: month as u32,
        day: day as u32,
    }
}

/// Counting from a day of the calendar and back leads to the same day.
pub proof fn lemma_date_round_trip(date: CalendarDate)
    requires
        date@.is_valid(),
    ensures
        civil_date(date@.day_number()) == date,
{
    lemma_civil_is(date@);
}

/// Counting to a day and back leads to the same number, as long as the year of
/// that day fits in its field.
pub proof fn lemma_days_round_trip(days: int)
    requires
        i32::MIN <= civil(days).year <= i32::MAX,
    ensures
        civil_date(days)@.is_valid(),
        civil_date(days)@.day_number() == days,
{
    lemma_civil(days);
}

// ---------------------------------------------------------------------------
// The current day
// ---------------------------------------------------------------------------

/// The UTC day of a Unix time, given in seconds.
pub open spec fn unix_date(seconds: u64) -> CalendarDate {
    civil_date((seconds / 86_400) as int)
}

/// The UTC day of a Unix time, given in seconds.
pub fn date_of_unix_time(seconds: u64) -> (date: CalendarDate)
    ensures
        date == unix_date(seconds),
{
    civil_from_days((seconds / 86_400) as i64)
}

/// `SystemTime::elapsed`, called on `UNIX_EPOCH`, reads the system clock: the
/// seconds since the first moment of 1970 and the nanoseconds after them, or
/// `None` where the clock is set before that moment. What the clock shows is
/// left open; the nanoseconds never make up a whole second.
#[verifier::external_body]
fn read_clock() -> (reading: Option<(u64, u32)>)
    ensures
        reading matches Some(time) ==> time.1 < 1_000_000_000,
{
    match std::time::UNIX_EPOCH.elapsed() {
        Ok(elapsed) => Some((elapsed.as_secs(), elapsed.subsec_nanos())),
        Err(_) => None,
    }
}

/// The UTC day of a reading of the clock: the seconds since the first moment of 1970
/// and the nanoseconds after them. A clock that is set before that moment has no
/// reading, and counts as showing it.
pub fn date_of_clock(reading: Option<(u64, u32)>) -> (date: CalendarDate)
    ensures
        date == unix_date(
            match reading {
                Some(time) => time.0,
                None => 0,
            },
        ),
{
    match reading {
        Some(time) => date_of_unix_time(time.0),
        None => date_of_unix_time(0),
    }
}

/// The current UTC day.
pub fn today() -> (date: CalendarDate)
    ensures
        exists|seconds: u64| date == #[trigger] unix_date(seconds),
{
    date_of_clock(read_clock())
}

// ---------------------------------------------------------------------------
// Dates as texts
// ---------------------------------------------------------------------------

/// A year of at least four characters, its sign among them.
pub open spec fn year_text(year: int) -> Seq<char> {
    if year < 0 {
        "-"@ + text::zero_padded((-year) as nat, 3)
    } else {
        text::zero_padded(year as nat, 4)
    }
}

/// A date as year, month and day with dashes between them.
pub open spec fn date_text(date: Civil) -> Seq<char> {
    year_text(date.year) + "-"@ + text::zero_padded(date.month as nat, 2) + "-"@
        + text::zero_padded(date.day as nat, 2)
}

impl CalendarDate {
    /// The date as year, month and day with dashes between them.
    pub fn to_string(&self) -> (value: String)
        ensures
            value@ == date_text(self@),
    {
        let year = if self.year < 0 {
            let digits = zero_padded_text((-(self.year as i64)) as u128, 3);
            join2("-", digits.as_str())
        } else {
            zero_padded_text(self.year as u128, 4)
        };
        let month = zero_padded_text(self.month as u128, 2);
        let day = zero_padded_text(self.day as u128, 2);
        join5(year.as_str(), "-", month.as_str(), "-", day.as_str())
    }
}

/// The complaint about a text that is no date.
pub open spec fn invalid_date(value: Seq<char>) -> Seq<char> {
    "invalid battery installation date '"@ + value + "'"@
}

/// The complaint about a text with a field that is no number.
pub open spec fn invalid_date_field(value: Seq<char>, error: text::NumberError) -> Seq<char> {
    "invalid battery installation date '"@ + value + "': "@ + text::number_error_text(error)
}

/// The date that a text names: three numbers with dashes between them, of a day
/// that the calendar has. The first fault from the left is reported.
pub open spec fn parsed_date(value: Seq<char>) -> Result<CalendarDate, Seq<char>> {
    let fields = split::pieces(value, '-', 4);
    match text::number(fields[0], i32::MAX as int) {
        Err(error) => Err(invalid_date_field(value, error)),
        Ok(year) => if fields.len() < 2 {
            Err(invalid_date(value))
        } else {
            match text::number(fields[1], u32::MAX as int) {
                Err(error) => Err(invalid_date_field(value, error)),
                Ok(month) => if fields.len() < 3 {
                    Err(invalid_date(value))
                } else {
                    match text::number(fields[2], u32::MAX as int) {
                        Err(error) => Err(invalid_date_field(value, error)),
                        Ok(day) => if fields.len() > 3 || !(Civil { year, month, day }).is_valid() {
                            Err(invalid_date(value))
                        } else {
                            Ok(CalendarDate {
                                year: year as i32,
                                month: month as u32,
                                day: day as u32,
                            })
                        },
                    }
                },
            }
        },
    }
}

/// The complaint about a text that is no date.
fn invalid_date_message(value: &str) -> (message: String)
    ensures
        message@ == invalid_date(value@),
{
    join3("invalid battery installation date '", value, "'")
}

/// One number of the date `value`. No field holds a dash, so none has a sign
/// other than a plus.
fn date_field(value: &str, field: &str, max: u64) -> (result: Result<u64, String>)
    ensures
        match text::number(field@, max as int) {
            Ok(n) => result is Ok && result->Ok_0 == n && n <= max,
            Err(error) => result is Err && result->Err_0@ == invalid_date_field(value@, error),
        },
{
    match parse_number(field, max) {
        Ok(n) => Ok(n),
        Err(error) => {
            let reason = error.message();
            Err(join4("invalid battery installation date '", value, "': ", reason.as_str()))
        },
    }
}

/// Whether the calendar has a day: counting to it and back leads to it again.
fn is_calendar_day(date: CalendarDate) -> (valid: bool)
    ensures
        valid == date@.is_valid(),
{
    let days: i64 = days_from_civil(date);
    let back = civil_from_days(days);
    proof {
        let found = civil(days as int);
        lemma_civil(days as int);
        if date@.is_valid() {
            lemma_civil_is(date@);
        }
        if back == date {
            // With the same month and day, the same number means the same year.
            let a = found.march_year();
            let b = date@.march_year();
            assert(days_before_march_year(a) == days_before_march_year(b));
            if a < b {
                lemma_march_year_length(a);
                lemma_march_years_grow(a, b);
            } else if b < a {
                lemma_march_year_length(b);
                lemma_march_years_grow(b, a);
            }
            assert(found == date@);
        }
    }
    back == date
}

/// Reads a date.
pub fn parse_calendar_date(value: &str) -> (result: Result<CalendarDate, String>)
    ensures
        text::err_text(result) == parsed_date(value@),
{
    let fields = split_pieces(value, '-', 4);
    proof {
        split::lemma_first_of(value@, '-');
        assert(text::texts(fields@)[0] == fields@[0]@);
    }
    let year: u64 = match date_field(value, fields[0].as_str(), i32::MAX as u64) {
        Ok(year) => year,
        Err(message) => return Err(message),
    };
    if fields.len() < 2 {
        return Err(invalid_date_message(value));
    }
    assert(text::texts(fields@)[1] == fields@[1]@);
    let month: u64 = match date_field(value, fields[1].as_str(), u32::MAX as u64) {
        Ok(month) => month,
        Err(message) => return Err(message),
    };
    if fields.len() < 3 {
        return Err(invalid_date_message(value));
    }
    assert(text::texts(fields@)[2] == fields@[2]@);
    let day: u64 = match date_field(value, fields[2].as_str(), u32::MAX as u64) {
        Ok(day) => day,
        Err(message) => return Err(message),
    };
    if fields.len() > 3 {
        return Err(invalid_date_message(value));
    }
    let date = CalendarDate { year: year as i32, month: month as u32, day: day as u32 };
    if !is_calendar_day(date) {
        return Err(invalid_date_message(value));
    }
    Ok(date)
}

// ---------------------------------------------------------------------------
// Dates are read back
// ---------------------------------------------------------------------------

/// Three fields without dashes are told apart again.
proof fn lemma_three_fields(a: Seq<char>, b: Seq<char>, c: Seq<char>)
    requires
        forall|i: int| 0 <= i < a.len() ==> #[trigger] a[i] != '-',
        forall|i: int| 0 <= i < b.len() ==> #[trigger] b[i] != '-',
        forall|i: int| 0 <= i < c.len() ==> #[trigger] c[i] != '-',
    ensures
        split::pieces(a + "-"@ + b + "-"@ + c, '-', 4) == seq![a, b, c],
{
    reveal_strlit("-");
    assert("-"@ == seq!['-']);
    let behind = b + "-"@ + c;
    assert(a + "-"@ + b + "-"@ + c == a + "-"@ + behind);
    split::lemma_first_piece(a, behind, '-', 4);
    split::lemma_first_piece(b, c, '-', 3);
    split::lemma_only_piece(c, '-', 2);
    assert(seq![a] + (seq![b] + seq![c]) == seq![a, b, c]);
}

/// A date that was written is read back, from the year 0 on. (The minus sign in
/// front of an earlier year is taken for a dash between two fields.)
pub proof fn lemma_date_is_read_back(date: CalendarDate)
    requires
        date@.is_valid(),
        date.year >= 0,
    ensures
        parsed_date(date_text(date@)) == Ok::<CalendarDate, Seq<char>>(date),
{
    let year = text::zero_padded(date.year as nat, 4);
    let month = text::zero_padded(date.month as nat, 2);
    let day = text::zero_padded(date.day as nat, 2);
    text::lemma_zero_padded(date.year as nat, 4);
    text::lemma_zero_padded(date.month as nat, 2);
    text::lemma_zero_padded(date.day as nat, 2);
    text::lemma_numeral_is_read_back(date.year as nat, 4, i32::MAX as int);
    text::lemma_numeral_is_read_back(date.month as nat, 2, u32::MAX as int);
    text::lemma_numeral_is_read_back(date.day as nat, 2, u32::MAX as int);
    assert forall|i: int| 0 <= i < year.len() implies #[trigger] year[i] != '-' by {
        assert(text::is_digit(year[i]));
    }
    assert forall|i: int| 0 <= i < month.len() implies #[trigger] month[i] != '-' by {
        assert(text::is_digit(month[i]));
    }
    assert forall|i: int| 0 <= i < day.len() implies #[trigger] day[i] != '-' by {
        assert(text::is_digit(day[i]));
    }
    lemma_three_fields(year, month, day);
}

/// A text is read as a date only where the calendar has that day.
pub proof fn lemma_only_calendar_days_are_read(value: Seq<char>)
    ensures
        parsed_date(value) matches Ok(date) ==> date@.is_valid() && date.year >= 0,
{
    let fields = split::pieces(value, '-', 4);
    text::lemma_number_in_range(fields[0], i32::MAX as int);
    text::lemma_number_in_range(fields[1], u32::MAX as int);
    text::lemma_number_in_range(fields[2], u32::MAX as int);
}

// ---------------------------------------------------------------------------
// What dates and days are
// ---------------------------------------------------------------------------

/// After 400 years the calendar begins anew: with 146,097 days in between, each day has
/// its like.
pub proof fn lemma_calendar_repeats(date: Civil)
    ensures
        (Civil { year: date.year + 400, ..date }).day_number() == date.day_number() + 146_097,
        (Civil { year: date.year + 400, ..date }).is_valid() == date.is_valid(),
{
    let later = Civil { year: date.year + 400, ..date };
    let year = date.march_year();
    assert(later.march_year() == year + 400);
    assert((year + 400) / 4 == year / 4 + 100);
    assert((year + 400) / 100 == year / 100 + 4);
    assert((year + 400) / 400 == year / 400 + 1);
    assert(later.months_after_march() == date.months_after_march());
    assert((date.year + 400) % 4 == date.year % 4);
    assert((date.year + 400) % 100 == date.year % 100);
    assert((date.year + 400) % 400 == date.year % 400);
    assert(is_leap_year(later.year) == is_leap_year(date.year));
}

/// The day of a Unix time is the one whose first second is not after it and whose last
/// one is not before it, as long as its year fits in its field.
pub proof fn lemma_day_of_unix_time(seconds: u64)
    requires
        civil((seconds / 86_400) as int).year <= i32::MAX,
    ensures
        unix_date(seconds)@.is_valid(),
        unix_date(seconds)@.day_number() * 86_400 <= seconds,
        seconds < (unix_date(seconds)@.day_number() + 1) * 86_400,
{
    let days = (seconds / 86_400) as int;
    let epoch = Civil { year: 1970, month: 1, day: 1 };
    lemma_civil(days);
    assert(epoch.is_valid() && epoch.day_number() == 0);
    lemma_day_numbers_are_ordered(civil(days), epoch);
    lemma_days_round_trip(days);
}

/// A later Unix time falls on no earlier day.
pub proof fn lemma_days_follow_the_clock(earlier: u64, later: u64)
    requires
        earlier <= later,
        civil((later / 86_400) as int).year <= i32::MAX,
    ensures
        unix_date(earlier)@.day_number() <= unix_date(later)@.day_number(),
{
    let a = (earlier / 86_400) as int;
    let b = (later / 86_400) as int;
    lemma_civil(a);
    lemma_civil(b);
    lemma_day_numbers_are_ordered(civil(b), civil(a));
    lemma_day_of_unix_time(later);
    lemma_day_of_unix_time(earlier);
    assert(a <= b);
    lemma_days_round_trip(a);
    lemma_days_round_trip(b);
}

/// Three texts without a dash, with a dash between each, are read as a date exactly
/// where each is read as a number and the calendar has that day; the date is made up of
/// those numbers. Else the complaint is about the first of them that is no number.
pub proof fn lemma_date_of_three_fields(year: Seq<char>, month: Seq<char>, day: Seq<char>)
    requires
        forall|i: int| 0 <= i < year.len() ==> #[trigger] year[i] != '-',
        forall|i: int| 0 <= i < month.len() ==> #[trigger] month[i] != '-',
        forall|i: int| 0 <= i < day.len() ==> #[trigger] day[i] != '-',
    ensures
        parsed_date(year + "-"@ + month + "-"@ + day) is Ok <==> {
            &&& text::number(year, 0x7fff_ffff) matches Ok(y)
            &&& text::number(month, 0xffff_ffff) matches Ok(m)
            &&& text::number(day, 0xffff_ffff) matches Ok(d)
            &&& (Civil { year: y, month: m, day: d }).is_valid()
        },
        parsed_date(year + "-"@ + month + "-"@ + day) matches Ok(date) ==> date@ == (Civil {
            year: text::number(year, 0x7fff_ffff)->Ok_0,
            month: text::number(month, 0xffff_ffff)->Ok_0,
            day: text::number(day, 0xffff_ffff)->Ok_0,
        }),
        parsed_date(year + "-"@ + month + "-"@ + day) is Err ==> ({
            let value = year + "-"@ + month + "-"@ + day;
            let quote = "invalid battery installation date '"@ + value;
            parsed_date(value)->Err_0 == match (
                text::number(year, 0x7fff_ffff),
                text::number(month, 0xffff_ffff),
                text::number(day, 0xffff_ffff),
            ) {
                (Err(error), _, _) => quote + "': "@ + text::number_error_text(error),
                (_, Err(error), _) => quote + "': "@ + text::number_error_text(error),
                (_, _, Err(error)) => quote + "': "@ + text::number_error_text(error),
                _ => quote + "'"@,
            }
        }),
{
    lemma_three_fields(year, month, day);
    text::lemma_number_in_range(year, i32::MAX as int);
    text::lemma_number_in_range(month, u32::MAX as int);
    text::lemma_number_in_range(day, u32::MAX as int);
}

/// Only three texts without a dash, with a dash between each, are read as a date.
pub proof fn lemma_dates_have_three_fields(value: Seq<char>)
    requires
        parsed_date(value) is Ok,
    ensures
        exists|year: Seq<char>, month: Seq<char>, day: Seq<char>|
            #![trigger year + "-"@ + month + "-"@ + day]
            value == year + "-"@ + month + "-"@ + day && !year.contains('-') && !month.contains(
                '-',
            ) && !day.contains('-'),
{
    reveal_strlit("-");
    assert("-"@ == seq!['-']);
    let fields = split::pieces(value, '-', 4);
    split::lemma_pieces(value, '-', 4);
    assert(fields.len() == 3);
    let (year, month, day) = (fields[0], fields[1], fields[2]);
    assert(fields.skip(1).skip(1) == seq![day]);
    assert(fields.skip(1) == seq![month, day]);
    reveal_with_fuel(split::rejoined, 4);
    assert(value == year + seq!['-'] + (month + seq!['-'] + day));
    assert(value == year + "-"@ + month + "-"@ + day);
    assert forall|k: int| 0 <= k < year.len() implies year[k] != '-' by {
        assert(fields[0][k] != '-');
    }
    assert forall|k: int| 0 <= k < month.len() implies month[k] != '-' by {
        assert(fields[1][k] != '-');
    }
    assert forall|k: int| 0 <= k < day.len() implies day[k] != '-' by {
        assert(fields.last()[k] != '-');
    }
}

/// A date is written as its year, its month and its day with a dash between each: the
/// year in four digits or more, the others in two or more. In front of a year before 0
/// stands a minus sign, and then three digits or more.
pub proof fn lemma_date_text(date: Civil)
    requires
        date.month >= 0,
        date.day >= 0,
    ensures
        date.year >= 0 ==> date_text(date) == text::zero_padded(date.year as nat, 4) + "-"@
            + text::zero_padded(date.month as nat, 2) + "-"@ + text::zero_padded(
            date.day as nat,
            2,
        ),
        date.year < 0 ==> date_text(date) == "-"@ + text::zero_padded((-date.year) as nat, 3) + "-"@
            + text::zero_padded(date.month as nat, 2) + "-"@ + text::zero_padded(
            date.day as nat,
            2,
        ),
{
}

/// Different days are written differently.
pub proof fn lemma_date_texts_differ(a: CalendarDate, b: CalendarDate)
    requires
        a@.is_valid(),
        b@.is_valid(),
        a.year >= 0,
        b.year >= 0,
        date_text(a@) == date_text(b@),
    ensures
        a == b,
{
    lemma_date_is_read_back(a);
    lemma_date_is_read_back(b);
}

/// The complaint about a text that is no date quotes it, and tells no more or goes on
/// with what is wrong with a field.
pub proof fn lemma_date_complaints(value: Seq<char>)
    requires
        parsed_date(value) is Err,
    ensures
        parsed_date(value)->Err_0 == "invalid battery installation date '"@ + value + "'"@
            || exists|error: text::NumberError|
            parsed_date(value)->Err_0 == "invalid battery installation date '"@ + value + "': "@
                + #[trigger] text::number_error_text(error),
{
}

/// Days of a month are counted one by one, also past its end or before its beginning.
pub proof fn lemma_days_of_a_month_are_counted(date: Civil, more: int)
    ensures
        (Civil { day: date.day + more, ..date }).day_number() == date.day_number() + more,
{
}

/// The fields of a date are what is counted.
pub proof fn lemma_date_is_its_fields(date: CalendarDate)
    ensures
        date@.year == date.year,
        date@.month == date.month,
        date@.day == date.day,
{
}

} // verus!

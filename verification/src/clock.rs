//! Points in time and their text in log lines.

use vstd::prelude::*;

use crate::text::{last_digit, zero_padded};

verus! {

/// How a point in time is written, in the notation of the `time` crate.
pub const TIMESTAMP_DESCRIPTION: &'static str =
    "[year]-[month]-[day]T[hour]:[minute]:[second].[subsecond digits:6]Z";

/// A date and a time of day in UTC.
#[derive(Clone, Copy, Debug)]
pub struct UtcTime {
    pub year: i32,
    pub month: u8,
    pub day: u8,
    pub hour: u8,
    pub minute: u8,
    pub second: u8,
    pub nanosecond: u32,
}

/// The error of the `time` crate for a value that cannot be written as described.
#[verifier::external_type_specification]
#[verifier::external_body]
pub struct ExFormat(time::error::Format);

/// Whether the year has a 29th of February.
pub open spec fn is_leap_year(year: int) -> bool {
    year % 4 == 0 && (year % 100 != 0 || year % 400 == 0)
}

/// The number of days of a month.
pub open spec fn days_in_month(year: int, month: int) -> int {
    if month == 2 {
        if is_leap_year(year) {
            29
        } else {
            28
        }
    } else if month == 4 || month == 6 || month == 9 || month == 11 {
        30
    } else {
        31
    }
}

impl UtcTime {
    /// Whether the fields denote a point in time.
    pub open spec fn valid(self) -> bool {
        &&& -9999 <= self.year <= 9999
        &&& 1 <= self.month <= 12
        &&& 1 <= self.day <= days_in_month(self.year as int, self.month as int)
        &&& self.hour < 24
        &&& self.minute < 60
        &&& self.second < 60
        &&& self.nanosecond < 1_000_000_000
    }

    /// The beginning of the year 1970.
    pub fn unix_epoch() -> (at: UtcTime)
        ensures
            at.valid(),
            at.year == 1970 && at.month == 1 && at.day == 1,
            at.hour == 0 && at.minute == 0 && at.second == 0 && at.nanosecond == 0,
    {
        UtcTime { year: 1970, month: 1, day: 1, hour: 0, minute: 0, second: 0, nanosecond: 0 }
    }

    /// The point in time as log lines show it: date, time of day and microseconds.
    pub open spec fn text(self) -> Seq<char> {
        let year = if self.year < 0 {
            seq!['-'] + zero_padded((-self.year) as nat, 4)
        } else {
            zero_padded(self.year as nat, 4)
        };
        year + seq!['-'] + zero_padded(self.month as nat, 2) + seq!['-'] + zero_padded(
            self.day as nat,
            2,
        ) + seq!['T'] + zero_padded(self.hour as nat, 2) + seq![':'] + zero_padded(
            self.minute as nat,
            2,
        ) + seq![':'] + zero_padded(self.second as nat, 2) + seq!['.'] + zero_padded(
            self.nanosecond as nat / 1000,
            6,
        ) + seq!['Z']
    }
}

/// `time::OffsetDateTime::now_utc`, taken apart into its components. Nothing is said
/// of which point in time it is; every reading is a point in time.
#[verifier::external_body]
pub(crate) fn now_utc() -> (now: UtcTime)
    ensures
        now.valid(),
{
    let now = time::OffsetDateTime::now_utc();
    UtcTime {
        year: now.year(),
        month: u8::from(now.month()),
        day: now.day(),
        hour: now.hour(),
        minute: now.minute(),
        second: now.second(),
        nanosecond: now.nanosecond(),
    }
}

/// Whether `now` is a reading of the system clock: what a call of [`now_utc`] gave.
pub closed spec fn read_from_clock(now: UtcTime) -> bool {
    call_ensures(now_utc, (), now)
}

/// Nothing but a call of [`now_utc`] gives a reading of the system clock.
pub(crate) proof fn readings_come_from_the_system_clock(now: UtcTime)
    ensures
        read_from_clock(now) ==> call_ensures(now_utc, (), now),
{
}

/// Reads the system clock.
pub(crate) fn read_clock() -> (now: UtcTime)
    ensures
        read_from_clock(now),
        now.valid(),
{
    now_utc()
}

/// `time::OffsetDateTime::format`, with the description that
/// `time::format_description::parse_borrowed` makes of `description`: year in four
/// digits (after a minus sign where it is negative), month, day, hour, minute and second
/// in two, and the first six digits of the fraction of the second. Every component that
/// the description names is there, so that the call succeeds.
#[verifier::external_body]
fn format_utc(at: &UtcTime, description: &str) -> (formatted: Result<String, time::error::Format>)
    requires
        at.valid(),
        description@ == TIMESTAMP_DESCRIPTION@,
    ensures
        formatted is Ok,
        formatted->Ok_0@ == at.text(),
{
    let month = time::Month::try_from(at.month).unwrap();
    let date = time::Date::from_calendar_date(at.year, month, at.day).unwrap();
    let clock = time::Time::from_hms_nano(at.hour, at.minute, at.second, at.nanosecond).unwrap();
    let items = time::format_description::parse_borrowed::<1>(description).unwrap();
    time::OffsetDateTime::new_utc(date, clock).format(&items)
}

/// What a log line shows for a formatted point in time: its text, or `unknown-time`
/// where the formatting failed.
pub fn timestamp_or_unknown(formatted: Result<String, time::error::Format>) -> (text: String)
    ensures
        formatted matches Ok(t) ==> text@ == t@,
        formatted is Err ==> text@ == "unknown-time"@,
{
    match formatted {
        Ok(text) => text,
        Err(_) => "unknown-time".to_string(),
    }
}

/// The text of a point in time in a log line.
pub fn timestamp_text(at: &UtcTime) -> (text: String)
    requires
        at.valid(),
    ensures
        text@ == at.text(),
{
    timestamp_or_unknown(format_utc(at, TIMESTAMP_DESCRIPTION))
}

proof fn lemma_zero_padded(n: nat, width: nat)
    ensures
        zero_padded(n, width).len() == width,
        forall|i: int|
            0 <= i < width ==> '0' <= #[trigger] zero_padded(n, width)[i] <= '9',
    decreases width,
{
    if width > 0 {
        lemma_zero_padded(n / 10, (width - 1) as nat);
        assert('0' <= last_digit(n) <= '9');
    }
}

/// From the year 0 on every timestamp has the same length, with a `T` between date and
/// time of day, a dot before the six digits of the microseconds and a `Z` at the end.
pub proof fn timestamp_has_fixed_shape(at: UtcTime)
    requires
        at.valid(),
        0 <= at.year,
    ensures
        at.text().len() == 27,
        at.text()[10] == 'T',
        at.text()[19] == '.',
        at.text()[26] == 'Z',
        forall|i: int|
            20 <= i < 26 ==> '0' <= #[trigger] at.text()[i] <= '9',
{
    lemma_zero_padded(at.year as nat, 4);
    lemma_zero_padded(at.month as nat, 2);
    lemma_zero_padded(at.day as nat, 2);
    lemma_zero_padded(at.hour as nat, 2);
    lemma_zero_padded(at.minute as nat, 2);
    lemma_zero_padded(at.second as nat, 2);
    lemma_zero_padded(at.nanosecond as nat / 1000, 6);
    let micros = zero_padded(at.nanosecond as nat / 1000, 6);
    assert forall|i: int| 20 <= i < 26 implies '0' <= #[trigger] at.text()[i] <= '9' by {
        assert(at.text()[i] == micros[i - 20]);
    }
}

} // verus!

//! Rendering spreadsheet date-time serials as calendar dates and clock times.
//! Calendar arithmetic and date formatting are chrono's.

use vstd::prelude::*;
use crate::cell::{all_digits, digits_value};
use crate::number::Serial;
use crate::text::{decimal, digit_char, is_ascii_digit, empty_string, push_char, push_signed_decimal, push_str, push_two_digits, signed_decimal, string_of};

verus! {

/// A calendar date as (year, month, day).
pub type Ymd = (i32, u32, u32);

/// What `NaiveDate::from_ymd_opt(year, month, day)` followed by
/// `checked_add_signed(TimeDelta::days(days))` gives, as (year, month, day).
pub uninterp spec fn chrono_add_days(year: i32, month: u32, day: u32, days: i64) -> Option<Ymd>;

/// The first year chrono's `NaiveDate` holds.
pub const CHRONO_MIN_YEAR: i32 = -262143i32;

/// The last year chrono's `NaiveDate` holds.
pub const CHRONO_MAX_YEAR: i32 = 262142i32;

/// A leap year of the proleptic Gregorian calendar.
pub open spec fn is_leap_year(y: int) -> bool {
    y % 4 == 0 && (y % 100 != 0 || y % 400 == 0)
}

/// The number of days of month `m` (1..=12) of year `y`.
pub open spec fn days_in_month(y: int, m: int) -> int {
    if m == 2 {
        if is_leap_year(y) { 29 } else { 28 }
    } else if m == 4 || m == 6 || m == 9 || m == 11 {
        30
    } else {
        31
    }
}

/// Whether (year, month, day) is a date chrono's `NaiveDate` holds: a year
/// in its range, a month from 1 to 12, and a day of that month.
pub open spec fn is_chrono_date(year: i32, month: u32, day: u32) -> bool {
    &&& CHRONO_MIN_YEAR <= year <= CHRONO_MAX_YEAR
    &&& 1 <= month <= 12
    &&& 1 <= day <= days_in_month(year as int, month as int)
}

/// A numeral padded with zeros on the left to at least four digits.
pub open spec fn four_digits(s: Seq<char>) -> Seq<char> {
    if s.len() >= 4 { s } else { Seq::new((4 - s.len()) as nat, |i: int| '0') + s }
}

/// `%Y`: a year from 0 to 9999 as four digits; any other year with its sign
/// and at least four digits.
pub open spec fn year_text(y: int) -> Seq<char> {
    if 0 <= y <= 9999 {
        four_digits(decimal(y as nat))
    } else if y < 0 {
        seq!['-'] + four_digits(decimal((-y) as nat))
    } else {
        seq!['+'] + four_digits(decimal(y as nat))
    }
}

/// A month or day number as two digits.
pub open spec fn two_digits(n: nat) -> Seq<char> {
    seq![digit_char(n / 10), digit_char(n % 10)]
}

/// A date formatted with `%Y-%m-%d`.
pub open spec fn ymd_text(date: Ymd) -> Seq<char> {
    year_text(date.0 as int) + seq!['-'] + two_digits(date.1 as nat) + seq!['-'] + two_digits(date.2 as nat)
}

/// The largest day count that `TimeDelta::days` accepts (`i64::MAX` milliseconds).
pub const MAX_DELTA_DAYS: i64 = 106_751_991_167i64;

/// `NaiveDate::from_ymd_opt` then `checked_add_signed(TimeDelta::days(days))`:
/// `None` when the start is no valid date or the sum leaves chrono's calendar range.
/// Claimed: the result depends on the arguments alone, and a date it gives is
/// one chrono holds. The day count is kept within what `TimeDelta::days`
/// accepts without panicking.
#[verifier::external_body]
fn add_days(date: Ymd, days: i64) -> (r: Option<Ymd>)
    requires
        -MAX_DELTA_DAYS <= days <= MAX_DELTA_DAYS,
    ensures
        r == chrono_add_days(date.0, date.1, date.2, days),
        r matches Some(d) ==> is_chrono_date(d.0, d.1, d.2),
{
    chrono::NaiveDate::from_ymd_opt(date.0, date.1, date.2)
        .and_then(|d| d.checked_add_signed(chrono::TimeDelta::days(days)))
        .map(|d| (chrono::Datelike::year(&d), chrono::Datelike::month(&d), chrono::Datelike::day(&d)))
}

/// `NaiveDate::from_ymd_opt` then `format("%Y-%m-%d").to_string()`. Claimed,
/// as chrono's source shows: `None` exactly when the triple is no date chrono
/// holds (see `is_chrono_date`), else the date as `ymd_text` writes it.
#[verifier::external_body]
fn format_ymd(date: Ymd) -> (r: Option<String>)
    ensures
        r is Some <==> is_chrono_date(date.0, date.1, date.2),
        r matches Some(s) ==> s@ == ymd_text(date),
{
    chrono::NaiveDate::from_ymd_opt(date.0, date.1, date.2).map(|d| d.format("%Y-%m-%d").to_string())
}

/// Day zero of the serial numbering: 1899-12-31 is serial 0 (so serial 1 is 1900-01-01).
pub open spec fn epoch() -> Ymd {
    (1899i32, 12u32, 31u32)
}

/// The text shown for a serial whose date chrono cannot represent: `Date[<days>]`.
pub open spec fn unrepresentable_date(days: i64) -> Seq<char> {
    "Date["@ + signed_decimal(days as int) + "]"@
}

/// The text of a date, or the unrepresentable-date text.
pub open spec fn date_text(date: Ymd, days: i64) -> Seq<char> {
    if is_chrono_date(date.0, date.1, date.2) { ymd_text(date) } else { unrepresentable_date(days) }
}

/// `hh:mm:ss` for a second count within one day.
pub open spec fn clock_text(total: u32) -> Seq<char> {
    let h = (total / 3600) as nat;
    let m = ((total % 3600) / 60) as nat;
    let s = (total % 60) as nat;
    seq![digit_char(h / 10), digit_char(h % 10), ':', digit_char(m / 10), digit_char(m % 10), ':',
        digit_char(s / 10), digit_char(s % 10)]
}

/// A number below 100 written as two digits reads back as itself.
proof fn lemma_two_digit_value(n: nat)
    requires
        n < 100,
    ensures
        digits_value(seq![digit_char(n / 10), digit_char(n % 10)]) == n,
        is_ascii_digit(digit_char(n / 10)),
        is_ascii_digit(digit_char(n % 10)),
{
    let d = seq![digit_char(n / 10), digit_char(n % 10)];
    assert(((48 + n / 10) as u8) as int == 48 + n / 10);
    assert(((48 + n % 10) as u8) as int == 48 + n % 10);
    let d1 = d.subrange(0, 1);
    assert(d1 =~= seq![digit_char(n / 10)]);
    assert(d1.subrange(0, d1.len() - 1) =~= Seq::<char>::empty());
    assert(d1[0] as int - 48 == n / 10);
    assert(digits_value(d1) == digits_value(d1.subrange(0, d1.len() - 1)) * 10 + (d1[d1.len() - 1] as int - 48));
    assert(digits_value(d1) == n / 10);
    assert(d.subrange(0, d.len() - 1) == d1);
    assert(digits_value(d) == (n / 10) * 10 + n % 10);
}

/// The time of day reads back from its text: for a second count within one
/// day, the text is `hh:mm:ss` with two digits in each field, minutes and
/// seconds below 60, and hours * 3600 + minutes * 60 + seconds is the count.
pub proof fn clock_text_reads_back(total: u32)
    requires
        total < 86400,
    ensures
        ({
            let t = clock_text(total);
            let hh = t.subrange(0, 2);
            let mm = t.subrange(3, 5);
            let ss = t.subrange(6, 8);
            &&& t.len() == 8
            &&& t[2] == ':' && t[5] == ':'
            &&& all_digits(hh) && all_digits(mm) && all_digits(ss)
            &&& digits_value(mm) < 60 && digits_value(ss) < 60
            &&& digits_value(hh) * 3600 + digits_value(mm) * 60 + digits_value(ss) == total
        }),
{
    let t = clock_text(total);
    let h = (total / 3600) as nat;
    let m = ((total % 3600) / 60) as nat;
    let s = (total % 60) as nat;
    assert(h < 24);
    lemma_two_digit_value(h);
    lemma_two_digit_value(m);
    lemma_two_digit_value(s);
    assert(t.subrange(0, 2) =~= seq![digit_char(h / 10), digit_char(h % 10)]);
    assert(t.subrange(3, 5) =~= seq![digit_char(m / 10), digit_char(m % 10)]);
    assert(t.subrange(6, 8) =~= seq![digit_char(s / 10), digit_char(s % 10)]);
    assert(total == h * 3600 + m * 60 + s);
}

/// Serial day count shifted for the 1900 leap-year quirk: serial 60 is the
/// non-existent 1900-02-29, so later serials are one day ahead of the calendar.
pub open spec fn calendar_offset(days: i64) -> int {
    if days > 60 { days - 1 } else { days as int }
}

/// The (date, optional time) texts of serial `s` whose calendar date is
/// `date` (none when chrono cannot represent it) and whose next day is
/// `next_day` (read only when the time of day rounds to a full day, which is
/// midnight of the next day).
pub open spec fn datetime_texts_of(s: Serial, date: Option<Ymd>, next_day: Option<Ymd>) -> (Seq<char>, Option<Seq<char>>) {
    match date {
        None => (unrepresentable_date(s.days), None),
        Some(date) => if s.negligible_time {
            (date_text(date, s.days), None)
        } else if s.seconds >= 86400 {
            match next_day {
                None => (unrepresentable_date(s.days), None),
                Some(next) => (date_text(next, s.days), None),
            }
        } else if s.seconds == 0 {
            (date_text(date, s.days), None)
        } else {
            (date_text(date, s.days), Some(clock_text(s.seconds)))
        },
    }
}

/// The (date, optional time) texts of a serial: its day count, shifted for
/// the 1900 leap-year quirk, is added to the epoch by chrono.
pub open spec fn spec_format_datetime(s: Serial) -> (Seq<char>, Option<Seq<char>>) {
    let offset = calendar_offset(s.days);
    if offset < -MAX_DELTA_DAYS || offset > MAX_DELTA_DAYS {
        (unrepresentable_date(s.days), None)
    } else {
        let date = chrono_add_days(epoch().0, epoch().1, epoch().2, offset as i64);
        let next_day = match date {
            Some(d) => chrono_add_days(d.0, d.1, d.2, 1),
            None => None,
        };
        datetime_texts_of(s, date, next_day)
    }
}

fn unrepresentable(days: i64) -> (t: String)
    ensures
        t@ == unrepresentable_date(days),
{
    let mut t = string_of("Date[");
    push_signed_decimal(&mut t, days);
    push_str(&mut t, "]");
    t
}

fn date_string(date: Ymd, days: i64) -> (t: String)
    ensures
        t@ == date_text(date, days),
{
    match format_ymd(date) {
        Some(t) => t,
        None => unrepresentable(days),
    }
}

fn clock_string(total: u32) -> (t: String)
    requires
        total < 86400,
    ensures
        t@ == clock_text(total),
{
    let mut t = empty_string();
    push_two_digits(&mut t, total / 3600);
    push_char(&mut t, ':');
    push_two_digits(&mut t, (total % 3600) / 60);
    push_char(&mut t, ':');
    push_two_digits(&mut t, total % 60);
    proof {
        assert(t@ =~= clock_text(total));
    }
    t
}

/// The date text and, when the serial has a time of day, the `hh:mm:ss`
/// text of a serial whose calendar date is `date` and whose next day is
/// `next_day` (see `datetime_texts_of`).
pub fn datetime_texts(serial: &Serial, date: Option<Ymd>, next_day: Option<Ymd>) -> (r: (String, Option<String>))
    ensures
        r.0@ == datetime_texts_of(*serial, date, next_day).0,
        match r.1 {
            Some(t) => datetime_texts_of(*serial, date, next_day).1 == Some(t@),
            None => datetime_texts_of(*serial, date, next_day).1 is None,
        },
{
    let days = serial.days;
    let date = match date {
        Some(d) => d,
        None => return (unrepresentable(days), None),
    };
    if serial.negligible_time {
        return (date_string(date, days), None);
    }
    let total = serial.seconds;
    if total >= 86400 {
        return match next_day {
            None => (unrepresentable(days), None),
            Some(next) => (date_string(next, days), None),
        };
    }
    if total == 0 {
        return (date_string(date, days), None);
    }
    (date_string(date, days), Some(clock_string(total)))
}

/// Format a spreadsheet date-time serial as a date text and, when the serial
/// has a time of day, a `hh:mm:ss` text. A time that rounds to a full day is
/// midnight of the next day, never `24:00:00`. A serial whose date chrono
/// cannot represent (including day counts too large for a chrono duration)
/// is shown as `Date[<days>]`.
pub fn format_datetime(serial: &Serial) -> (r: (String, Option<String>))
    ensures
        r.0@ == spec_format_datetime(*serial).0,
        match r.1 {
            Some(t) => spec_format_datetime(*serial).1 == Some(t@),
            None => spec_format_datetime(*serial).1 is None,
        },
{
    let days = serial.days;
    if days > 60 && days - 1 > MAX_DELTA_DAYS || days <= 60 && (days < -MAX_DELTA_DAYS || days > MAX_DELTA_DAYS) {
        return (unrepresentable(days), None);
    }
    let offset: i64 = if days > 60 { days - 1 } else { days };
    let date = add_days((1899i32, 12u32, 31u32), offset);
    let next_day = match date {
        Some(d) => if !serial.negligible_time && serial.seconds >= 86400 { add_days(d, 1) } else { None },
        None => None,
    };
    datetime_texts(serial, date, next_day)
}

} // verus!

//! Output file naming: a rotation moment, given as seconds since the epoch
//! (UTC), becomes a file name of the form
//! `YYYY-MM-DD HH.MM.SS+0000.mp3`.
//!
//! The calendar conversion is specified by the inverse direction: the date
//! returned for a day number is the unique valid civil date whose day count
//! since 1970-01-01 equals that number.

use vstd::prelude::*;

verus! {

/// A year is a leap year iff it is divisible by 4 and, when divisible by
/// 100, also by 400.
pub open spec fn is_leap_year(year: int) -> bool {
    year % 4 == 0 && (year % 100 != 0 || year % 400 == 0)
}

pub open spec fn days_in_year(year: int) -> int {
    if is_leap_year(year) {
        366
    } else {
        365
    }
}

/// Days in month `month` (1-based) of `year`.
pub open spec fn days_in_month(year: int, month: int) -> int {
    if month == 2 {
        if is_leap_year(year) {
            29
        } else {
            28
        }
    } else if month == 4 || month == 6 || month == 9 || month == 11 {
        30
    } else {
        31
    }
}

/// Days from 1970-01-01 to the first day of `year`.
pub open spec fn days_before_year(year: int) -> int
    decreases year - 1970,
{
    if year <= 1970 {
        0
    } else {
        days_before_year(year - 1) + days_in_year(year - 1)
    }
}

/// Days from the first day of `year` to the first day of its month
/// `month` (1-based).
pub open spec fn days_before_month(year: int, month: int) -> int
    decreases month - 1,
{
    if month <= 1 {
        0
    } else {
        days_before_month(year, month - 1) + days_in_month(year, month - 1)
    }
}

/// The day number (days since 1970-01-01) of the civil date y-m-d.
pub open spec fn day_number_of(year: int, month: int, day: int) -> int {
    days_before_year(year) + days_before_month(year, month) + (day - 1)
}

/// A well-formed civil date on or after 1970-01-01.
pub open spec fn valid_date(year: int, month: int, day: int) -> bool {
    &&& year >= 1970
    &&& 1 <= month <= 12
    &&& 1 <= day <= days_in_month(year, month)
}

/// Peel whole years off a day count, starting at `year`.
pub open spec fn split_year(days: nat, year: int) -> (int, nat)
    decreases days,
{
    if days < days_in_year(year) {
        (year, days)
    } else {
        split_year((days - days_in_year(year)) as nat, year + 1)
    }
}

/// Peel whole months off a day-of-year, starting at month `month`.
pub open spec fn split_month(days: nat, year: int, month: int) -> (int, nat)
    decreases 12 - month,
{
    if month >= 12 || days < days_in_month(year, month) {
        (month, days)
    } else {
        split_month((days - days_in_month(year, month)) as nat, year, month + 1)
    }
}

/// The civil date (year, month, day) of a day number.
pub open spec fn civil_of_day_number(days: nat) -> (int, int, int) {
    let (year, day_of_year) = split_year(days, 1970);
    let (month, day_rem) = split_month(day_of_year, year, 1);
    (year, month, day_rem + 1 as int)
}

/// The months of a year account for all of its days.
proof fn lemma_months_cover_year(year: int)
    ensures
        days_before_month(year, 13) == days_in_year(year),
{
    reveal_with_fuel(days_before_month, 13);
}

/// Convert a day count since 1970-01-01 to the civil date (year, month,
/// day). The result is `civil_of_day_number`, and it is characterized
/// exactly: it is a valid date whose day number is `days`.
pub fn civil_from_days(days: u64) -> (ymd: (u64, u64, u64))
    requires
        days <= u64::MAX - 1971,
    ensures
        (ymd.0 as int, ymd.1 as int, ymd.2 as int) == civil_of_day_number(days as nat),
        valid_date(ymd.0 as int, ymd.1 as int, ymd.2 as int),
        day_number_of(ymd.0 as int, ymd.1 as int, ymd.2 as int) == days,
        ymd.2 <= 31,
{
    let mut year: u64 = 1970;
    let mut rem: u64 = days;
    loop
        invariant
            days <= u64::MAX - 1971,
            1970 <= year <= 1970 + (days - rem),
            days_before_year(year as int) + rem == days,
            split_year(days as nat, 1970) == split_year(rem as nat, year as int),
        ensures
            1970 <= year,
            days_before_year(year as int) + rem == days,
            split_year(days as nat, 1970) == (year as int, rem as nat),
            rem < days_in_year(year as int),
        decreases rem,
    {
        let year_days: u64 = if (year % 4 == 0 && year % 100 != 0) || year % 400 == 0 {
            366
        } else {
            365
        };
        assert(year_days == days_in_year(year as int));
        if rem < year_days {
            break;
        }
        rem = rem - year_days;
        year = year + 1;
    }
    let ghost day_of_year: nat = rem as nat;
    let mut month: u64 = 1;
    loop
        invariant
            1 <= month <= 12,
            rem <= day_of_year < days_in_year(year as int),
            days_before_month(year as int, month as int) + rem == day_of_year,
            split_month(day_of_year, year as int, 1) == split_month(
                rem as nat,
                year as int,
                month as int,
            ),
        ensures
            1 <= month <= 12,
            days_before_month(year as int, month as int) + rem == day_of_year,
            split_month(day_of_year, year as int, 1) == (month as int, rem as nat),
            rem < days_in_month(year as int, month as int),
        decreases 12 - month,
    {
        let month_days: u64 = if month == 2 {
            if (year % 4 == 0 && year % 100 != 0) || year % 400 == 0 {
                29
            } else {
                28
            }
        } else if month == 4 || month == 6 || month == 9 || month == 11 {
            30
        } else {
            31
        };
        assert(month_days == days_in_month(year as int, month as int));
        if month >= 12 || rem < month_days {
            if month >= 12 && rem >= month_days {
                // The day-of-year is short of the full year, so December
                // cannot be exceeded.
                proof {
                    lemma_months_cover_year(year as int);
                }
                assert(false);
            }
            break;
        }
        rem = rem - month_days;
        month = month + 1;
    }
    (year, month, rem + 1)
}

/// The decimal digits of `n`, as ASCII bytes, most significant first.
pub open spec fn spec_digits(n: nat) -> Seq<u8>
    decreases n,
{
    if n < 10 {
        seq![(48 + n) as u8]
    } else {
        spec_digits(n / 10).push((48 + n % 10) as u8)
    }
}

/// `n` as exactly two ASCII digits (for `n < 100`).
pub open spec fn spec_two_digits(n: nat) -> Seq<u8> {
    seq![(48 + n / 10) as u8, (48 + n % 10) as u8]
}

/// Append the decimal digits of `n`.
fn push_digits(n: u64, out: &mut Vec<u8>)
    ensures
        final(out)@ == old(out)@ + spec_digits(n as nat),
    decreases n,
{
    if n < 10 {
        out.push(48 + n as u8);
        assert(out@ =~= old(out)@ + spec_digits(n as nat));
    } else {
        assert(n / 10 < n) by (nonlinear_arith)
            requires n >= 10;
        push_digits(n / 10, out);
        out.push(48 + (n % 10) as u8);
        assert(out@ =~= old(out)@ + spec_digits(n as nat));
    }
}

/// Append `n` as exactly two digits.
fn push_two_digits(n: u64, out: &mut Vec<u8>)
    requires
        n < 100,
    ensures
        final(out)@ == old(out)@ + spec_two_digits(n as nat),
{
    out.push(48 + (n / 10) as u8);
    out.push(48 + (n % 10) as u8);
    assert(out@ =~= old(out)@ + spec_two_digits(n as nat));
}

/// The file name for a rotation at `t` seconds since the epoch (UTC):
/// `YYYY-MM-DD HH.MM.SS+0000.mp3`.
pub open spec fn spec_file_name(t: int) -> Seq<u8> {
    let days = t / 86400;
    let second_of_day = t % 86400;
    let ymd = civil_of_day_number(days as nat);
    spec_digits(ymd.0 as nat) + seq![45u8] + spec_two_digits(ymd.1 as nat) + seq![45u8]
        + spec_two_digits(ymd.2 as nat) + seq![32u8]
        + spec_two_digits((second_of_day / 3600) as nat) + seq![46u8]
        + spec_two_digits((second_of_day % 3600 / 60) as nat) + seq![46u8]
        + spec_two_digits((second_of_day % 60) as nat)
        + seq![43u8, 48u8, 48u8, 48u8, 48u8, 46u8, 109u8, 112u8, 51u8]
}

/// Build the name of the file opened at time `t` (seconds since the epoch,
/// UTC).
pub fn file_name_for(t: u64) -> (name: Vec<u8>)
    requires
        t <= u64::MAX - 86400 * 1971,
    ensures
        name@ == spec_file_name(t as int),
{
    let days: u64 = t / 86400;
    let second_of_day: u64 = t % 86400;
    assert(days <= u64::MAX - 1971) by (nonlinear_arith)
        requires t <= u64::MAX - 86400 * 1971 && days == t / 86400;
    let (year, month, day) = civil_from_days(days);
    let hour: u64 = second_of_day / 3600;
    let minute: u64 = second_of_day % 3600 / 60;
    let second: u64 = second_of_day % 60;
    assert(hour < 24 && minute < 60 && second < 60) by (nonlinear_arith)
        requires
            second_of_day < 86400,
            hour == second_of_day / 3600,
            minute == second_of_day % 3600 / 60,
            second == second_of_day % 60;
    let mut name: Vec<u8> = Vec::new();
    push_digits(year, &mut name);
    name.push(45);
    push_two_digits(month, &mut name);
    name.push(45);
    push_two_digits(day, &mut name);
    name.push(32);
    push_two_digits(hour, &mut name);
    name.push(46);
    push_two_digits(minute, &mut name);
    name.push(46);
    push_two_digits(second, &mut name);
    name.push(43);
    name.push(48);
    name.push(48);
    name.push(48);
    name.push(48);
    name.push(46);
    name.push(109);
    name.push(112);
    name.push(51);
    proof {
        assert(name@ =~= spec_file_name(t as int));
    }
    name
}

/// All bytes of `s` are ASCII.
spec fn ascii_bytes(s: Seq<u8>) -> bool {
    forall|i: int| 0 <= i < s.len() ==> #[trigger] s[i] < 128
}

proof fn lemma_ascii_concat(a: Seq<u8>, b: Seq<u8>)
    requires
        ascii_bytes(a),
        ascii_bytes(b),
    ensures
        ascii_bytes(a + b),
{
    assert forall|i: int| 0 <= i < (a + b).len() implies #[trigger] (a + b)[i] < 128 by {
        if i < a.len() {
            assert((a + b)[i] == a[i]);
        } else {
            assert((a + b)[i] == b[i - a.len()]);
        }
    }
}

/// Every byte of a digit run is an ASCII digit.
proof fn lemma_digits_ascii(n: nat)
    ensures
        ascii_bytes(spec_digits(n)),
    decreases n,
{
    if n < 10 {
        assert forall|i: int| 0 <= i < spec_digits(n).len() implies #[trigger] spec_digits(
            n,
        )[i] < 128 by {
            assert(spec_digits(n)[0] == (48 + n) as u8);
        }
    } else {
        lemma_digits_ascii(n / 10);
        assert forall|i: int| 0 <= i < spec_digits(n).len() implies #[trigger] spec_digits(
            n,
        )[i] < 128 by {
            if i < spec_digits(n / 10).len() {
                assert(spec_digits(n)[i] == spec_digits(n / 10)[i]);
            } else {
                assert(spec_digits(n)[i] == (48 + n % 10) as u8);
            }
        }
    }
}

proof fn lemma_two_digits_ascii(n: nat)
    requires
        n < 100,
    ensures
        ascii_bytes(spec_two_digits(n)),
{
    assert forall|i: int| 0 <= i < spec_two_digits(n).len() implies #[trigger] spec_two_digits(
        n,
    )[i] < 128 by {
        assert(spec_two_digits(n)[0] == (48 + n / 10) as u8);
        assert(spec_two_digits(n)[1] == (48 + n % 10) as u8);
    }
}

/// Peeling years always leaves a remainder short of the year reached.
proof fn lemma_split_year_range(days: nat, year: int)
    ensures
        split_year(days, year).0 >= year,
        split_year(days, year).1 < days_in_year(split_year(days, year).0),
    decreases days,
{
    if days >= days_in_year(year) {
        lemma_split_year_range((days - days_in_year(year)) as nat, year + 1);
    }
}

/// Peeling months from a day-of-year lands on a month of the year with a
/// remainder short of that month.
proof fn lemma_split_month_range(days: nat, year: int, month: int)
    requires
        1 <= month <= 12,
        days + days_before_month(year, month) < days_in_year(year),
    ensures
        month <= split_month(days, year, month).0 <= 12,
        split_month(days, year, month).1 < days_in_month(year, split_month(days, year, month).0),
    decreases 12 - month,
{
    if month >= 12 || days < days_in_month(year, month) {
        if month >= 12 && days >= days_in_month(year, month) {
            lemma_months_cover_year(year);
            assert(false);
        }
    } else {
        lemma_split_month_range((days - days_in_month(year, month)) as nat, year, month + 1);
    }
}

/// Every byte of a file name is ASCII.
proof fn lemma_file_name_ascii(t: int)
    requires
        t >= 0,
    ensures
        ascii_bytes(spec_file_name(t)),
{
    let days = (t / 86400) as nat;
    let second_of_day = t % 86400;
    let ymd = civil_of_day_number(days);
    lemma_split_year_range(days, 1970);
    let year = split_year(days, 1970).0;
    let day_of_year = split_year(days, 1970).1;
    lemma_split_month_range(day_of_year, year, 1);
    assert(days_in_month(year, ymd.1) <= 31);
    assert(second_of_day / 3600 < 24 && second_of_day % 3600 / 60 < 60 && second_of_day % 60
        < 60) by (nonlinear_arith)
        requires second_of_day == t % 86400 && t >= 0;
    lemma_digits_ascii(ymd.0 as nat);
    lemma_two_digits_ascii(ymd.1 as nat);
    lemma_two_digits_ascii(ymd.2 as nat);
    lemma_two_digits_ascii((second_of_day / 3600) as nat);
    lemma_two_digits_ascii((second_of_day % 3600 / 60) as nat);
    lemma_two_digits_ascii((second_of_day % 60) as nat);
    lemma_ascii_concat(spec_digits(ymd.0 as nat), seq![45u8]);
    lemma_ascii_concat(spec_digits(ymd.0 as nat) + seq![45u8], spec_two_digits(ymd.1 as nat));
    lemma_ascii_concat(
        spec_digits(ymd.0 as nat) + seq![45u8] + spec_two_digits(ymd.1 as nat),
        seq![45u8],
    );
    lemma_ascii_concat(
        spec_digits(ymd.0 as nat) + seq![45u8] + spec_two_digits(ymd.1 as nat) + seq![45u8],
        spec_two_digits(ymd.2 as nat),
    );
    let prefix1 = spec_digits(ymd.0 as nat) + seq![45u8] + spec_two_digits(ymd.1 as nat)
        + seq![45u8] + spec_two_digits(ymd.2 as nat);
    lemma_ascii_concat(prefix1, seq![32u8]);
    lemma_ascii_concat(prefix1 + seq![32u8], spec_two_digits((second_of_day / 3600) as nat));
    let prefix2 = prefix1 + seq![32u8] + spec_two_digits((second_of_day / 3600) as nat);
    lemma_ascii_concat(prefix2, seq![46u8]);
    lemma_ascii_concat(
        prefix2 + seq![46u8],
        spec_two_digits((second_of_day % 3600 / 60) as nat),
    );
    let prefix3 = prefix2 + seq![46u8] + spec_two_digits((second_of_day % 3600 / 60) as nat);
    lemma_ascii_concat(prefix3, seq![46u8]);
    lemma_ascii_concat(prefix3 + seq![46u8], spec_two_digits((second_of_day % 60) as nat));
    let prefix4 = prefix3 + seq![46u8] + spec_two_digits((second_of_day % 60) as nat);
    lemma_ascii_concat(prefix4, seq![43u8, 48u8, 48u8, 48u8, 48u8, 46u8, 109u8, 112u8, 51u8]);
    assert(spec_file_name(t) == prefix4 + seq![
        43u8,
        48u8,
        48u8,
        48u8,
        48u8,
        46u8,
        109u8,
        112u8,
        51u8,
    ]);
}

/// Relies on `String::from_utf8`: ASCII bytes form valid UTF-8 and decode
/// to one character per byte, each the character with that byte's code.
#[verifier::external_body]
fn string_from_ascii(bytes: Vec<u8>) -> (s: String)
    requires
        forall|i: int| 0 <= i < bytes@.len() ==> bytes@[i] < 128,
    ensures
        s@ == bytes@.map_values(|b: u8| b as char),
{
    match String::from_utf8(bytes) {
        Ok(s) => s,
        Err(_) => String::new(),
    }
}

/// The file name for a rotation at `t`, as a `String`.
pub fn file_name_string_for(t: u64) -> (name: String)
    requires
        t <= u64::MAX - 86400 * 1971,
    ensures
        name@ == spec_file_name(t as int).map_values(|b: u8| b as char),
{
    let bytes = file_name_for(t);
    proof {
        lemma_file_name_ascii(t as int);
    }
    string_from_ascii(bytes)
}

} // verus!

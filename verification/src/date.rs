//! Calendar dates: validity (through chrono) and the texts printed for them.
use vstd::prelude::*;
use crate::tdata::Date;
use crate::strs::{nat_text, digit_char};

verus! {

/// The earliest year a date may have.
pub const MIN_YEAR: i32 = -262143;

/// The latest year a date may have.
pub const MAX_YEAR: i32 = 262142;

/// Whether a year is a leap year in the proleptic Gregorian calendar.
pub open spec fn is_leap(y: int) -> bool {
    y % 4 == 0 && (y % 100 != 0 || y % 400 == 0)
}

/// The number of days in a month of a year.
pub open spec fn days_in_month(y: int, m: int) -> int {
    if m == 2 {
        if is_leap(y) { 29 } else { 28 }
    } else if m == 4 || m == 6 || m == 9 || m == 11 {
        30
    } else {
        31
    }
}

/// Whether year, month and day name a date that chrono's `NaiveDate` can hold.
pub open spec fn valid_ymd(y: i32, m: u32, d: u32) -> bool {
    &&& MIN_YEAR <= y <= MAX_YEAR
    &&& 1 <= m <= 12
    &&& 1 <= d <= days_in_month(y as int, m as int)
}

/// The date with the given year, month and day, when it exists (chrono's `NaiveDate::from_ymd_opt`).
///
/// Claims of chrono: a date is made exactly when the year is within chrono's range and the month
/// and day exist in the proleptic Gregorian calendar, and then it keeps the three numbers.
#[verifier::external_body]
pub(crate) fn date_from_ymd(y: i32, m: u32, d: u32) -> (r: Option<Date>)
    ensures
        r is Some <==> valid_ymd(y, m, d),
        r matches Some(x) ==> x == (Date { year: y, month: m, day: d }),
{
    chrono::NaiveDate::from_ymd_opt(y, m, d).map(|_| Date { year: y, month: m, day: d })
}

/// Two digits, with a leading zero below ten.
pub open spec fn two_digits(n: nat) -> Seq<char> {
    if n < 10 {
        seq!['0', digit_char(n)]
    } else {
        nat_text(n)
    }
}

/// Zeros in front of a digit text to make it at least four long.
pub open spec fn pad4(t: Seq<char>) -> Seq<char> {
    if t.len() >= 4 {
        t
    } else {
        Seq::new((4 - t.len()) as nat, |i: int| '0') + t
    }
}

/// A year as chrono prints it: four digits within 0..=9999, else a sign and at least four digits.
pub open spec fn year_text(y: int) -> Seq<char> {
    if 0 <= y <= 9999 {
        pad4(nat_text(y as nat))
    } else if y < 0 {
        seq!['-'] + pad4(nat_text((-y) as nat))
    } else {
        seq!['+'] + pad4(nat_text(y as nat))
    }
}

/// A date as `%d/%m/%Y`.
pub open spec fn date_text(d: Date) -> Seq<char> {
    two_digits(d.day as nat) + seq!['/'] + two_digits(d.month as nat) + seq!['/'] + year_text(d.year as int)
}

/// A date as chrono's `Debug` prints it (`yyyy-mm-dd`).
pub open spec fn date_debug(d: Date) -> Seq<char> {
    year_text(d.year as int) + seq!['-'] + two_digits(d.month as nat) + seq!['-'] + two_digits(d.day as nat)
}

fn two_digits_exec(n: u32) -> (v: Vec<char>)
    ensures
        v@ == two_digits(n as nat),
{
    if n < 10 {
        let mut v = Vec::new();
        v.push('0');
        let d = crate::strs::u64_digits(n as u64);
        assert(d@ == seq![digit_char(n as nat)]);
        v.push(d[0]);
        v
    } else {
        crate::strs::u64_digits(n as u64)
    }
}

fn pad4_exec(t: Vec<char>) -> (v: Vec<char>)
    ensures
        v@ == pad4(t@),
{
    if t.len() >= 4 {
        return t;
    }
    let mut v: Vec<char> = Vec::new();
    let n = 4 - t.len();
    for i in 0..n
        invariant
            n == 4 - t.len(),
            v@ == Seq::new(i as nat, |j: int| '0'),
    {
        v.push('0');
        assert(v@ =~= Seq::new((i + 1) as nat, |j: int| '0'));
    }
    let mut i: usize = 0;
    let ghost v0 = v@;
    while i < t.len()
        invariant
            0 <= i <= t.len(),
            v@ == v0 + t@.take(i as int),
        decreases t.len() - i,
    {
        v.push(t[i]);
        assert(t@.take(i + 1) == t@.take(i as int).push(t@[i as int]));
        i = i + 1;
    }
    assert(t@.take(t.len() as int) == t@);
    v
}

fn year_text_exec(y: i32) -> (v: Vec<char>)
    ensures
        v@ == year_text(y as int),
{
    if 0 <= y && y <= 9999 {
        pad4_exec(crate::strs::u64_digits(y as u64))
    } else if y < 0 {
        let m: u64 = if y == i32::MIN { 2147483648u64 } else { (-y) as u64 };
        let p = pad4_exec(crate::strs::u64_digits(m));
        let mut v = Vec::new();
        v.push('-');
        let mut p2 = p;
        v.append(&mut p2);
        v
    } else {
        let p = pad4_exec(crate::strs::u64_digits(y as u64));
        let mut v = Vec::new();
        v.push('+');
        let mut p2 = p;
        v.append(&mut p2);
        v
    }
}

/// A date as `%d/%m/%Y`.
pub fn date_text_exec(d: &Date) -> (v: Vec<char>)
    ensures
        v@ == date_text(*d),
{
    let mut v = two_digits_exec(d.day);
    v.push('/');
    let mut m = two_digits_exec(d.month);
    v.append(&mut m);
    v.push('/');
    let mut y = year_text_exec(d.year);
    v.append(&mut y);
    v
}

/// A date as `yyyy-mm-dd`.
pub fn date_debug_exec(d: &Date) -> (v: Vec<char>)
    ensures
        v@ == date_debug(*d),
{
    let mut v = year_text_exec(d.year);
    v.push('-');
    let mut m = two_digits_exec(d.month);
    v.append(&mut m);
    v.push('-');
    let mut dd = two_digits_exec(d.day);
    v.append(&mut dd);
    v
}

} // verus!

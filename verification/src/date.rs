//! Calendar dates at day granularity, as the request-token cache uses them.
//!
//! A cached request token is usable only on the Eastern-time calendar day it
//! was issued.  The issue date is stored as a ten-character `YYYY-MM-DD`
//! string; this module formats and parses that representation and obtains
//! the current Eastern date through one trusted call into chrono.

use vstd::prelude::*;

verus! {

use crate::util::ascii_to_string;
use vstd::string::StrSliceExecFns;

/// A calendar date.  Fields are plain numbers; no time zone is attached —
/// the session decides in which zone "today" is computed.
#[derive(Debug, Clone, Copy, PartialEq, Eq, Structural)]
pub struct Date {
    pub year: u32,
    pub month: u32,
    pub day: u32,
}

/// A date that the `YYYY-MM-DD` representation can carry.
pub open spec fn valid_date(d: Date) -> bool {
    d.year <= 9999 && 1 <= d.month <= 12 && 1 <= d.day <= 31
}

/// The character for one decimal digit.
pub open spec fn digit_char(n: u32) -> char {
    ((0x30 + (n % 10)) as u8) as char
}

/// The ten characters `YYYY-MM-DD` of a date.
pub open spec fn date_str(d: Date) -> Seq<char> {
    seq![
        digit_char(d.year / 1000),
        digit_char(d.year / 100),
        digit_char(d.year / 10),
        digit_char(d.year),
        '-',
        digit_char(d.month / 10),
        digit_char(d.month),
        '-',
        digit_char(d.day / 10),
        digit_char(d.day),
    ]
}

/// Whether a character is a decimal digit.
pub open spec fn is_digit(c: char) -> bool {
    0x30 <= c as u32 <= 0x39
}

/// The value of a decimal digit character.
pub open spec fn digit_val(c: char) -> u32 {
    (c as u32 - 0x30) as u32
}

/// The date denoted by a `YYYY-MM-DD` character string, if it is one and is
/// in range.
pub open spec fn parsed_date(s: Seq<char>) -> Option<Date> {
    if s.len() == 10 && is_digit(s[0]) && is_digit(s[1]) && is_digit(s[2]) && is_digit(s[3])
        && s[4] == '-' && is_digit(s[5]) && is_digit(s[6]) && s[7] == '-' && is_digit(s[8])
        && is_digit(s[9]) {
        let d = Date {
            year: (digit_val(s[0]) * 1000 + digit_val(s[1]) * 100 + digit_val(s[2]) * 10
                + digit_val(s[3])) as u32,
            month: (digit_val(s[5]) * 10 + digit_val(s[6])) as u32,
            day: (digit_val(s[8]) * 10 + digit_val(s[9])) as u32,
        };
        if 1 <= d.month <= 12 && 1 <= d.day <= 31 {
            Some(d)
        } else {
            None
        }
    } else {
        None
    }
}

fn push_digit(out: &mut Vec<u8>, n: u32)
    ensures
        final(out)@ == old(out)@.push((0x30 + (n % 10)) as u8),
        final(out)@.len() == old(out)@.len() + 1,
{
    out.push(0x30 + ((n % 10) as u8));
}

/// Formats a date as its ten-character `YYYY-MM-DD` string.
pub fn format_date(d: &Date) -> (r: String)
    requires
        valid_date(*d),
    ensures
        r@ == date_str(*d),
{
    let mut out: Vec<u8> = Vec::new();
    push_digit(&mut out, d.year / 1000);
    push_digit(&mut out, d.year / 100);
    push_digit(&mut out, d.year / 10);
    push_digit(&mut out, d.year);
    out.push(0x2D);
    push_digit(&mut out, d.month / 10);
    push_digit(&mut out, d.month);
    out.push(0x2D);
    push_digit(&mut out, d.day / 10);
    push_digit(&mut out, d.day);
    proof {
        assert(forall|i: int| 0 <= i < out@.len() ==> out@[i] < 128);
    }
    let r = ascii_to_string(out);
    proof {
        assert(r@ =~= date_str(*d));
    }
    r
}

/// The digit denoted by a character, if any.
fn digit_of(c: char) -> (r: Option<u32>)
    ensures
        r is Some <==> is_digit(c),
        r is Some ==> r.unwrap() == digit_val(c),
{
    let v = c as u32;
    if 0x30 <= v && v <= 0x39 {
        Some(v - 0x30)
    } else {
        None
    }
}

/// Whether a character is the separator `-`.
fn is_dash(c: char) -> (r: bool)
    ensures
        r == (c == '-'),
{
    let v = c as u32;
    proof {
        vstd::utf8::char_u32_cast(c, v);
        if v == 0x2D {
            vstd::utf8::char_u32_cast('-', '-' as u32);
        }
    }
    v == 0x2D
}

/// Parses a ten-character `YYYY-MM-DD` string back into a date.
pub fn parse_date(s: &str) -> (r: Option<Date>)
    ensures
        r == parsed_date(s@),
{
    let n = s.unicode_len();
    if n != 10 {
        return None;
    }
    let y0 = digit_of(s.get_char(0));
    let y1 = digit_of(s.get_char(1));
    let y2 = digit_of(s.get_char(2));
    let y3 = digit_of(s.get_char(3));
    let m0 = digit_of(s.get_char(5));
    let m1 = digit_of(s.get_char(6));
    let d0 = digit_of(s.get_char(8));
    let d1 = digit_of(s.get_char(9));
    if !(is_dash(s.get_char(4)) && is_dash(s.get_char(7))) {
        return None;
    }
    match (y0, y1, y2, y3, m0, m1, d0, d1) {
        (
            Some(y0),
            Some(y1),
            Some(y2),
            Some(y3),
            Some(m0),
            Some(m1),
            Some(d0),
            Some(d1),
        ) => {
            let month = m0 * 10 + m1;
            let day = d0 * 10 + d1;
            if 1 <= month && month <= 12 && 1 <= day && day <= 31 {
                Some(Date { year: y0 * 1000 + y1 * 100 + y2 * 10 + y3, month, day })
            } else {
                None
            }
        },
        _ => None,
    }
}

/// Formatting a valid date and parsing the result gives the date back.
pub proof fn lemma_date_round_trip(d: Date)
    requires
        valid_date(d),
    ensures
        parsed_date(date_str(d)) == Some(d),
{
    let s = date_str(d);
    assert forall|i: int| 0 <= i < 10 && i != 4 && i != 7 implies is_digit(s[i]) by {
        lemma_digit_char_val((if i == 0 {
            d.year / 1000
        } else if i == 1 {
            d.year / 100
        } else if i == 2 {
            d.year / 10
        } else if i == 3 {
            d.year
        } else if i == 5 {
            d.month / 10
        } else if i == 6 {
            d.month
        } else if i == 8 {
            d.day / 10
        } else {
            d.day
        }));
    }
    lemma_digit_char_val(d.year / 1000);
    lemma_digit_char_val(d.year / 100);
    lemma_digit_char_val(d.year / 10);
    lemma_digit_char_val(d.year);
    lemma_digit_char_val(d.month / 10);
    lemma_digit_char_val(d.month);
    lemma_digit_char_val(d.day / 10);
    lemma_digit_char_val(d.day);
    assert(s[4] == '-' && s[7] == '-');
    assert(d.year / 1000 % 10 * 1000 + d.year / 100 % 10 * 100 + d.year / 10 % 10 * 10 + d.year
        % 10 == d.year) by (nonlinear_arith)
        requires
            d.year <= 9999,
    ;
    assert(d.month / 10 % 10 * 10 + d.month % 10 == d.month) by (nonlinear_arith)
        requires
            d.month <= 12,
    ;
    assert(d.day / 10 % 10 * 10 + d.day % 10 == d.day) by (nonlinear_arith)
        requires
            d.day <= 31,
    ;
}

/// A digit character denotes its digit.
proof fn lemma_digit_char_val(n: u32)
    ensures
        is_digit(digit_char(n)),
        digit_val(digit_char(n)) == n % 10,
{
    let b = (0x30 + (n % 10)) as u8;
    assert(b < 128);
    assert((b as char) as u32 == b as u32) by {
        vstd::utf8::char_u32_cast(b as char, b as u32);
    }
}

/// Relies on chrono (`Utc::now`, `Datelike`) and chrono-tz (`US::Eastern`):
/// the month of a chrono date is between 1 and 12 and the day between 1
/// and 31; the year is handed out unchecked for the caller to validate.
#[verifier::external_body]
pub fn today_eastern() -> (r: (i64, u32, u32))
    ensures
        1 <= r.1 <= 12,
        1 <= r.2 <= 31,
{
    let now = chrono::Utc::now().with_timezone(&chrono_tz::US::Eastern).date_naive();
    (chrono::Datelike::year(&now) as i64, chrono::Datelike::month(&now), chrono::Datelike::day(&now))
}

/// Builds a date from raw calendar parts, rejecting anything the
/// `YYYY-MM-DD` representation cannot carry.
pub fn date_from_parts(year: i64, month: u32, day: u32) -> (r: Option<Date>)
    ensures
        match r {
            Some(d) => valid_date(d) && d.year == year && d.month == month && d.day == day,
            None => !(0 <= year <= 9999 && 1 <= month <= 12 && 1 <= day <= 31),
        },
{
    if 0 <= year && year <= 9999 && 1 <= month && month <= 12 && 1 <= day && day <= 31 {
        Some(Date { year: year as u32, month, day })
    } else {
        None
    }
}

} // verus!

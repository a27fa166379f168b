//! Capture timestamps and the date-folder pattern language.
//!
//! A timestamp is plain calendar data. The date-folder pattern is a small
//! token language: `%Y` renders the four-digit year, `%m` the two-digit
//! month, `%d` the two-digit day; every other character stands for itself.
//! A `%` followed by anything else (or ending the pattern) is invalid, and
//! validity is checked for the whole pattern up front, never per file.

use vstd::prelude::*;
use vstd::string::StrSliceExecFns;
use vstd::string::StringExecFns;

verus! {

/// A capture timestamp, as plain calendar fields.
#[derive(Clone, Copy, Debug, PartialEq, Eq, Structural)]
pub struct Timestamp {
    pub year: u16,
    pub month: u8,
    pub day: u8,
    pub hour: u8,
    pub minute: u8,
    pub second: u8,
}

impl Timestamp {
    /// Field ranges every timestamp built by [`Timestamp::from_parts`] obeys.
    pub open spec fn well_formed(&self) -> bool {
        &&& self.year <= 9999
        &&& 1 <= self.month <= 12
        &&& 1 <= self.day <= 31
        &&& self.hour <= 23
        &&& self.minute <= 59
        &&& self.second <= 59
    }

    /// The timestamp the given calendar fields describe, or `None` when a
    /// field is out of range.
    pub open spec fn spec_from_parts(
        year: i32,
        month: u32,
        day: u32,
        hour: u32,
        minute: u32,
        second: u32,
    ) -> Option<Timestamp> {
        if 0 <= year <= 9999 && 1 <= month <= 12 && 1 <= day <= 31 && hour <= 23 && minute <= 59
            && second <= 59 {
            Some(
                Timestamp {
                    year: year as u16,
                    month: month as u8,
                    day: day as u8,
                    hour: hour as u8,
                    minute: minute as u8,
                    second: second as u8,
                },
            )
        } else {
            None
        }
    }

    /// Builds a timestamp from calendar fields, rejecting out-of-range ones.
    pub fn from_parts(year: i32, month: u32, day: u32, hour: u32, minute: u32, second: u32) -> (r:
        Option<Timestamp>)
        ensures
            r == Self::spec_from_parts(year, month, day, hour, minute, second),
            r is Some ==> r.unwrap().well_formed(),
    {
        if 0 <= year && year <= 9999 && 1 <= month && month <= 12 && 1 <= day && day <= 31 && hour
            <= 23 && minute <= 59 && second <= 59 {
            Some(
                Timestamp {
                    year: year as u16,
                    month: month as u8,
                    day: day as u8,
                    hour: hour as u8,
                    minute: minute as u8,
                    second: second as u8,
                },
            )
        } else {
            None
        }
    }
}

/// The decimal digit character for `d` in `0 ..= 9`.
pub open spec fn spec_digit(d: int) -> char {
    if d == 0 {
        '0'
    } else if d == 1 {
        '1'
    } else if d == 2 {
        '2'
    } else if d == 3 {
        '3'
    } else if d == 4 {
        '4'
    } else if d == 5 {
        '5'
    } else if d == 6 {
        '6'
    } else if d == 7 {
        '7'
    } else if d == 8 {
        '8'
    } else {
        '9'
    }
}

/// `n` rendered as exactly two decimal digits, for `n < 100`.
pub open spec fn spec_two_digits(n: int) -> Seq<char> {
    seq![spec_digit(n / 10), spec_digit(n % 10)]
}

/// `n` rendered as exactly four decimal digits, for `n < 10000`.
pub open spec fn spec_four_digits(n: int) -> Seq<char> {
    seq![
        spec_digit(n / 1000),
        spec_digit((n / 100) % 10),
        spec_digit((n / 10) % 10),
        spec_digit(n % 10),
    ]
}

fn digit_str(d: u8) -> (r: &'static str)
    requires
        d <= 9,
    ensures
        r@ =~= seq![spec_digit(d as int)],
{
    proof {
        reveal_strlit("0");
        reveal_strlit("1");
        reveal_strlit("2");
        reveal_strlit("3");
        reveal_strlit("4");
        reveal_strlit("5");
        reveal_strlit("6");
        reveal_strlit("7");
        reveal_strlit("8");
        reveal_strlit("9");
    }
    match d {
        0 => "0",
        1 => "1",
        2 => "2",
        3 => "3",
        4 => "4",
        5 => "5",
        6 => "6",
        7 => "7",
        8 => "8",
        _ => "9",
    }
}

fn append_two_digits(out: &mut String, n: u8)
    requires
        n <= 99,
    ensures
        final(out)@ == old(out)@ + spec_two_digits(n as int),
{
    out.append(digit_str(n / 10));
    out.append(digit_str(n % 10));
    proof {
        assert(final(out)@ =~= old(out)@ + spec_two_digits(n as int));
    }
}

fn append_four_digits(out: &mut String, n: u16)
    requires
        n <= 9999,
    ensures
        final(out)@ == old(out)@ + spec_four_digits(n as int),
{
    out.append(digit_str((n / 1000) as u8));
    out.append(digit_str(((n / 100) % 10) as u8));
    out.append(digit_str(((n / 10) % 10) as u8));
    out.append(digit_str((n % 10) as u8));
    proof {
        assert(final(out)@ =~= old(out)@ + spec_four_digits(n as int));
    }
}

/// Whether the pattern suffix starting at `i` holds only supported tokens.
pub open spec fn spec_format_valid_from(fmt: Seq<char>, i: int) -> bool
    decreases fmt.len() - i,
{
    if i < 0 || i >= fmt.len() {
        true
    } else if fmt[i] == '%' {
        &&& i + 1 < fmt.len()
        &&& (fmt[i + 1] == 'Y' || fmt[i + 1] == 'm' || fmt[i + 1] == 'd')
        &&& spec_format_valid_from(fmt, i + 2)
    } else {
        spec_format_valid_from(fmt, i + 1)
    }
}

/// Whether the whole date-folder pattern holds only supported tokens.
pub open spec fn spec_format_valid(fmt: Seq<char>) -> bool {
    spec_format_valid_from(fmt, 0)
}

/// Checks the date-folder pattern up front, before any planning.
pub fn validate_format(fmt: &str) -> (r: bool)
    ensures
        r == spec_format_valid(fmt@),
{
    let len = fmt.unicode_len();
    let mut i: usize = 0;
    while i < len
        invariant
            len == fmt@.len(),
            0 <= i <= len,
            spec_format_valid(fmt@) == spec_format_valid_from(fmt@, i as int),
        decreases len - i,
    {
        if fmt.get_char(i) == '%' {
            if i + 1 >= len {
                return false;
            }
            let c = fmt.get_char(i + 1);
            if c != 'Y' && c != 'm' && c != 'd' {
                return false;
            }
            i = i + 2;
        } else {
            i = i + 1;
        }
    }
    true
}

/// The rendering of the pattern suffix starting at `i` for timestamp `ts`.
/// An unsupported token never reaches the renderer: validity is checked
/// first; for completeness a stray `%` here stands for itself.
pub open spec fn spec_render_from(fmt: Seq<char>, ts: Timestamp, i: int) -> Seq<char>
    decreases fmt.len() - i,
{
    if i < 0 || i >= fmt.len() {
        Seq::empty()
    } else if fmt[i] == '%' && i + 1 < fmt.len() && fmt[i + 1] == 'Y' {
        spec_four_digits(ts.year as int) + spec_render_from(fmt, ts, i + 2)
    } else if fmt[i] == '%' && i + 1 < fmt.len() && fmt[i + 1] == 'm' {
        spec_two_digits(ts.month as int) + spec_render_from(fmt, ts, i + 2)
    } else if fmt[i] == '%' && i + 1 < fmt.len() && fmt[i + 1] == 'd' {
        spec_two_digits(ts.day as int) + spec_render_from(fmt, ts, i + 2)
    } else {
        seq![fmt[i]] + spec_render_from(fmt, ts, i + 1)
    }
}

/// The date folder the pattern renders to for timestamp `ts`.
pub open spec fn spec_render_format(fmt: Seq<char>, ts: Timestamp) -> Seq<char> {
    spec_render_from(fmt, ts, 0)
}

/// Renders the date-folder pattern for one timestamp.
pub fn render_date_folder(fmt: &str, ts: &Timestamp) -> (r: String)
    requires
        spec_format_valid(fmt@),
        ts.well_formed(),
    ensures
        r@ == spec_render_format(fmt@, *ts),
{
    let len = fmt.unicode_len();
    let mut out = String::new();
    let mut i: usize = 0;
    while i < len
        invariant
            len == fmt@.len(),
            0 <= i <= len,
            spec_format_valid_from(fmt@, i as int),
            ts.well_formed(),
            spec_render_format(fmt@, *ts) == out@ + spec_render_from(fmt@, *ts, i as int),
        decreases len - i,
    {
        let c = fmt.get_char(i);
        if c == '%' {
            let t = fmt.get_char(i + 1);
            if t == 'Y' {
                append_four_digits(&mut out, ts.year);
            } else if t == 'm' {
                append_two_digits(&mut out, ts.month);
            } else {
                append_two_digits(&mut out, ts.day);
            }
            i = i + 2;
        } else {
            let piece = fmt.substring_char(i, i + 1);
            out.append(piece);
            proof {
                assert(piece@ =~= seq![fmt@[i as int]]);
            }
            i = i + 1;
        }
        proof {
            assert(spec_render_format(fmt@, *ts) =~= out@ + spec_render_from(
                fmt@,
                *ts,
                i as int,
            ));
        }
    }
    out
}

} // verus!

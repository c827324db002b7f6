//! Civil date-times in UTC and their conversion to seconds since the epoch.
//!
//! Snapshots are named after their creation instant in the fixed form
//! `YYYY-MM-DDTHH-MM-SSZ`; this module renders and reads that form and turns a
//! civil date-time into an epoch-second count for ordering and arithmetic.

use vstd::arithmetic::div_mod::{
    lemma_div_is_ordered, lemma_fundamental_div_mod, lemma_mod_mod,
};
use vstd::prelude::*;
use vstd::string::StrSliceExecFns;

use crate::text::{digit_val, hex_char, push_dash, push_hex_char};

verus! {

/// Every instant of a well-formed civil date-time fits well below this
/// bound, which keeps age arithmetic in range.
pub const MAX_EPOCH_SECS: i64 = 0x100_0000_0000;

/// A civil date-time in UTC with second resolution.
#[derive(Clone, Copy, PartialEq, Eq, Structural, Debug, Hash)]
pub struct CivilDateTime {
    pub year: u16,
    pub month: u8,
    pub day: u8,
    pub hour: u8,
    pub minute: u8,
    pub second: u8,
}

/// Whether `y` is a leap year in the proleptic Gregorian calendar.
pub open spec fn spec_is_leap_year(y: int) -> bool {
    y % 4 == 0 && (y % 100 != 0 || y % 400 == 0)
}

/// The number of days in month `m` of year `y`.
pub open spec fn spec_days_in_month(y: int, m: int) -> int {
    if m == 2 {
        if spec_is_leap_year(y) {
            29
        } else {
            28
        }
    } else if m == 4 || m == 6 || m == 9 || m == 11 {
        30
    } else {
        31
    }
}

impl CivilDateTime {
    /// A well-formed date-time: a real calendar date from 1970 through 9999
    /// and a time of day.
    pub open spec fn wf(&self) -> bool {
        &&& 1970 <= self.year <= 9999
        &&& 1 <= self.month <= 12
        &&& 1 <= self.day <= spec_days_in_month(self.year as int, self.month as int)
        &&& self.hour < 24
        &&& self.minute < 60
        &&& self.second < 60
    }
}

/// Days from 1970-01-01 to the given date, by the usual era decomposition of
/// the Gregorian calendar.
pub open spec fn spec_days_from_civil(y: int, m: int, d: int) -> int {
    let yp = if m <= 2 {
        y - 1
    } else {
        y
    };
    let era = yp / 400;
    let yoe = yp % 400;
    let mp = if m > 2 {
        m - 3
    } else {
        m + 9
    };
    let doy = (153 * mp + 2) / 5 + d - 1;
    let doe = yoe * 365 + yoe / 4 - yoe / 100 + doy;
    era * 146097 + doe - 719468
}

/// Seconds from 1970-01-01T00:00:00Z to the given civil instant.
pub open spec fn spec_epoch_secs(c: CivilDateTime) -> int {
    spec_days_from_civil(c.year as int, c.month as int, c.day as int) * 86400 + c.hour as int
        * 3600 + c.minute as int * 60 + c.second as int
}

impl CivilDateTime {
    /// Builds a date-time from its six fields.
    pub fn new(year: u16, month: u8, day: u8, hour: u8, minute: u8, second: u8) -> (r:
        CivilDateTime)
        ensures
            r == (CivilDateTime { year, month, day, hour, minute, second }),
    {
        CivilDateTime { year, month, day, hour, minute, second }
    }

    /// Seconds since 1970-01-01T00:00:00Z.
    pub fn to_epoch_secs(&self) -> (r: i64)
        requires
            self.wf(),
        ensures
            r == spec_epoch_secs(*self),
            0 <= r <= MAX_EPOCH_SECS,
    {
        proof {
            lemma_epoch_secs_range(*self);
        }
        let y = self.year as u64;
        let m = self.month as u64;
        let d = self.day as u64;
        let yp: u64 = if m <= 2 {
            y - 1
        } else {
            y
        };
        let era: u64 = yp / 400;
        let yoe: u64 = yp % 400;
        let mp: u64 = if m > 2 {
            m - 3
        } else {
            m + 9
        };
        let doy: u64 = (153 * mp + 2) / 5 + d - 1;
        proof {
            assert(mp <= 11);
            assert((153 * mp + 2) as int / 5 <= 337) by {
                lemma_div_is_ordered(153 * mp as int + 2, 1685, 5);
            }
            assert(yoe < 400);
            assert(yoe as int / 4 <= 99) by {
                lemma_div_is_ordered(yoe as int, 399, 4);
            }
        }
        let doe: u64 = yoe * 365 + yoe / 4 - yoe / 100 + doy;
        proof {
            assert(yoe as int * 365 + yoe as int / 4 >= yoe as int / 100) by {
                lemma_div_is_ordered(yoe as int, yoe as int, 100);
            }
            assert(era <= 25) by {
                lemma_div_is_ordered(yp as int, 10000, 400);
            }
        }
        let days: i64 = (era * 146097 + doe) as i64 - 719468;
        days * 86400 + (self.hour as i64) * 3600 + (self.minute as i64) * 60 + (
        self.second as i64)
    }
}

/// Position of each punctuation mark of a snapshot name.
pub open spec fn name_mark_at(p: int) -> Option<char> {
    if p == 4 || p == 7 || p == 13 || p == 16 {
        Some('-')
    } else if p == 10 {
        Some('T')
    } else if p == 19 {
        Some('Z')
    } else {
        None
    }
}

/// The character at position `p` of the snapshot name of `c`.
pub open spec fn name_char_at(c: CivilDateTime, p: int) -> char {
    let y = c.year as int;
    let mo = c.month as int;
    let d = c.day as int;
    let h = c.hour as int;
    let mi = c.minute as int;
    let s = c.second as int;
    if p == 0 {
        hex_char(y / 1000)
    } else if p == 1 {
        hex_char((y % 1000) / 100)
    } else if p == 2 {
        hex_char((y % 100) / 10)
    } else if p == 3 {
        hex_char(y % 10)
    } else if p == 4 {
        '-'
    } else if p == 5 {
        hex_char(mo / 10)
    } else if p == 6 {
        hex_char(mo % 10)
    } else if p == 7 {
        '-'
    } else if p == 8 {
        hex_char(d / 10)
    } else if p == 9 {
        hex_char(d % 10)
    } else if p == 10 {
        'T'
    } else if p == 11 {
        hex_char(h / 10)
    } else if p == 12 {
        hex_char(h % 10)
    } else if p == 13 {
        '-'
    } else if p == 14 {
        hex_char(mi / 10)
    } else if p == 15 {
        hex_char(mi % 10)
    } else if p == 16 {
        '-'
    } else if p == 17 {
        hex_char(s / 10)
    } else if p == 18 {
        hex_char(s % 10)
    } else {
        'Z'
    }
}

/// The 20-character snapshot name of `c`.
pub open spec fn spec_name_chars(c: CivilDateTime) -> Seq<char> {
    Seq::new(20, |p: int| name_char_at(c, p))
}

/// Whether `s` has the shape of a snapshot name: digits and the fixed marks.
pub open spec fn name_shape_ok(s: Seq<char>) -> bool {
    &&& s.len() == 20
    &&& forall|p: int|
        0 <= p < 20 ==> match name_mark_at(p) {
            Some(mark) => #[trigger] s[p] == mark,
            None => digit_val(s[p]) < 10,
        }
}

/// The six fields read from a name-shaped character sequence.
pub open spec fn name_fields(s: Seq<char>) -> CivilDateTime {
    CivilDateTime {
        year: (digit_val(s[0]) * 1000 + digit_val(s[1]) * 100 + digit_val(s[2]) * 10 + digit_val(
            s[3],
        )) as u16,
        month: (digit_val(s[5]) * 10 + digit_val(s[6])) as u8,
        day: (digit_val(s[8]) * 10 + digit_val(s[9])) as u8,
        hour: (digit_val(s[11]) * 10 + digit_val(s[12])) as u8,
        minute: (digit_val(s[14]) * 10 + digit_val(s[15])) as u8,
        second: (digit_val(s[17]) * 10 + digit_val(s[18])) as u8,
    }
}

/// What parsing a snapshot name yields: the civil instant, or nothing when
/// the text is not a well-formed name of a real instant.
pub open spec fn spec_parse_name(s: Seq<char>) -> Option<CivilDateTime> {
    if name_shape_ok(s) && name_fields(s).wf() {
        Some(name_fields(s))
    } else {
        None
    }
}

/// Renders the snapshot name of a date-time.
pub fn format_snapshot_name(c: &CivilDateTime) -> (r: String)
    requires
        c.wf(),
    ensures
        r@ == spec_name_chars(*c),
{
    let mut s = String::new();
    let y = c.year;
    push_hex_char(&mut s, (y / 1000) as u8);
    push_hex_char(&mut s, ((y % 1000) / 100) as u8);
    push_hex_char(&mut s, ((y % 100) / 10) as u8);
    push_hex_char(&mut s, (y % 10) as u8);
    push_dash(&mut s);
    push_hex_char(&mut s, c.month / 10);
    push_hex_char(&mut s, c.month % 10);
    push_dash(&mut s);
    push_hex_char(&mut s, c.day / 10);
    push_hex_char(&mut s, c.day % 10);
    push_t(&mut s);
    push_hex_char(&mut s, c.hour / 10);
    push_hex_char(&mut s, c.hour % 10);
    push_dash(&mut s);
    push_hex_char(&mut s, c.minute / 10);
    push_hex_char(&mut s, c.minute % 10);
    push_dash(&mut s);
    push_hex_char(&mut s, c.second / 10);
    push_hex_char(&mut s, c.second % 10);
    push_z(&mut s);
    proof {
        assert(s@ =~= spec_name_chars(*c));
    }
    s
}

/// Appends the letter `T` to `s`.
fn push_t(s: &mut String)
    ensures
        final(s)@ == old(s)@.push('T'),
{
    s.append("T");
    proof {
        reveal_strlit("T");
        assert(s@ =~= old(s)@.push('T'));
    }
}

/// Appends the letter `Z` to `s`.
fn push_z(s: &mut String)
    ensures
        final(s)@ == old(s)@.push('Z'),
{
    s.append("Z");
    proof {
        reveal_strlit("Z");
        assert(s@ =~= old(s)@.push('Z'));
    }
}

/// Reads the decimal digit at position `p` of `s`.
fn read_digit(s: &str, p: usize) -> (r: Option<u8>)
    requires
        p < s@.len(),
    ensures
        match r {
            Some(d) => digit_val(s@[p as int]) == d && d < 10,
            None => digit_val(s@[p as int]) == 10,
        },
{
    let c = s.get_char(p);
    match c {
        '0' => Some(0),
        '1' => Some(1),
        '2' => Some(2),
        '3' => Some(3),
        '4' => Some(4),
        '5' => Some(5),
        '6' => Some(6),
        '7' => Some(7),
        '8' => Some(8),
        '9' => Some(9),
        _ => None,
    }
}

/// Checks that the character at position `p` of `s` is `mark`.
fn expect_mark(s: &str, p: usize, mark: char) -> (r: bool)
    requires
        p < s@.len(),
    ensures
        r == (s@[p as int] == mark),
{
    s.get_char(p) == mark
}

/// Whether `y`, `m`, `d` name a real calendar date (month and day ranges).
pub fn is_valid_date(y: u16, m: u8, d: u8) -> (r: bool)
    ensures
        r == (1 <= m <= 12 && 1 <= d <= spec_days_in_month(y as int, m as int)),
{
    if m < 1 || m > 12 {
        return false;
    }
    let dim: u8 = if m == 2 {
        if (y % 4 == 0) && (y % 100 != 0 || y % 400 == 0) {
            29
        } else {
            28
        }
    } else if m == 4 || m == 6 || m == 9 || m == 11 {
        30
    } else {
        31
    };
    1 <= d && d <= dim
}

/// Parses a snapshot name back into its civil instant.
pub fn parse_snapshot_name(s: &str) -> (r: Option<CivilDateTime>)
    ensures
        r == spec_parse_name(s@),
{
    let n = s.unicode_len();
    if n != 20 {
        return None;
    }
    let d0 = read_digit(s, 0);
    let d1 = read_digit(s, 1);
    let d2 = read_digit(s, 2);
    let d3 = read_digit(s, 3);
    let d5 = read_digit(s, 5);
    let d6 = read_digit(s, 6);
    let d8 = read_digit(s, 8);
    let d9 = read_digit(s, 9);
    let d11 = read_digit(s, 11);
    let d12 = read_digit(s, 12);
    let d14 = read_digit(s, 14);
    let d15 = read_digit(s, 15);
    let d17 = read_digit(s, 17);
    let d18 = read_digit(s, 18);
    let marks_ok = expect_mark(s, 4, '-') && expect_mark(s, 7, '-') && expect_mark(s, 10, 'T')
        && expect_mark(s, 13, '-') && expect_mark(s, 16, '-') && expect_mark(s, 19, 'Z');
    match (d0, d1, d2, d3, d5, d6, d8, d9, d11, d12, d14, d15, d17, d18) {
        (
            Some(y0),
            Some(y1),
            Some(y2),
            Some(y3),
            Some(mo0),
            Some(mo1),
            Some(da0),
            Some(da1),
            Some(h0),
            Some(h1),
            Some(mi0),
            Some(mi1),
            Some(se0),
            Some(se1),
        ) => {
            if !marks_ok {
                return None;
            }
            let year: u16 = (y0 as u16) * 1000 + (y1 as u16) * 100 + (y2 as u16) * 10 + (
            y3 as u16);
            let month: u8 = mo0 * 10 + mo1;
            let day: u8 = da0 * 10 + da1;
            let hour: u8 = h0 * 10 + h1;
            let minute: u8 = mi0 * 10 + mi1;
            let second: u8 = se0 * 10 + se1;
            assert(name_shape_ok(s@));
            let c = CivilDateTime { year, month, day, hour, minute, second };
            assert(c == name_fields(s@));
            if year < 1970 {
                return None;
            }
            if !is_valid_date(year, month, day) {
                return None;
            }
            if hour >= 24 || minute >= 60 || second >= 60 {
                return None;
            }
            Some(c)
        },
        _ => {
            assert(!name_shape_ok(s@));
            None
        },
    }
}

/// Reading a rendered snapshot name gives the instant back.
pub proof fn lemma_name_roundtrip(c: CivilDateTime)
    requires
        c.wf(),
    ensures
        spec_parse_name(spec_name_chars(c)) == Some(c),
{
    let s = spec_name_chars(c);
    assert(name_shape_ok(s));
    lemma_two_digits(c.month as int);
    lemma_two_digits(c.day as int);
    lemma_two_digits(c.hour as int);
    lemma_two_digits(c.minute as int);
    lemma_two_digits(c.second as int);
    lemma_four_digits(c.year as int);
    assert(name_fields(s) == c);
}

/// The two decimal digits of a value below one hundred rebuild the value.
proof fn lemma_two_digits(v: int)
    requires
        0 <= v < 100,
    ensures
        digit_val(hex_char(v / 10)) == v / 10,
        digit_val(hex_char(v % 10)) == v % 10,
        (v / 10) * 10 + v % 10 == v,
{
    lemma_fundamental_div_mod(v, 10);
}

/// The four decimal digits of a value below ten thousand rebuild the value.
proof fn lemma_four_digits(v: int)
    requires
        0 <= v < 10000,
    ensures
        digit_val(hex_char(v / 1000)) == v / 1000,
        digit_val(hex_char((v % 1000) / 100)) == (v % 1000) / 100,
        digit_val(hex_char((v % 100) / 10)) == (v % 100) / 10,
        digit_val(hex_char(v % 10)) == v % 10,
        (v / 1000) * 1000 + ((v % 1000) / 100) * 100 + ((v % 100) / 10) * 10 + v % 10 == v,
{
    lemma_div_is_ordered(v, 9999, 1000);
    lemma_fundamental_div_mod(v, 1000);
    lemma_fundamental_div_mod(v % 1000, 100);
    lemma_fundamental_div_mod(v % 100, 10);
    lemma_mod_mod(v, 100, 10);
    lemma_mod_mod(v, 10, 10);
    assert((v % 1000) % 100 == v % 100) by {
        lemma_mod_mod(v, 100, 10);
        assert(1000 == 100 * 10);
        lemma_mod_mod_alt(v, 100, 10);
    }
    assert((v % 100) % 10 == v % 10) by {
        lemma_mod_mod_alt(v, 10, 10);
    }
}

/// `(x % (a * b)) % a == x % a` for positive `a`, `b`.
proof fn lemma_mod_mod_alt(x: int, a: int, b: int)
    requires
        0 <= x,
        0 < a,
        0 < b,
    ensures
        (x % (a * b)) % a == x % a,
{
    lemma_mod_mod(x, a, b);
}

} // verus!

verus! {

/// The epoch seconds of a well-formed civil date-time lie between the epoch
/// and the supported maximum.
pub proof fn lemma_epoch_secs_range(c: CivilDateTime)
    requires
        c.wf(),
    ensures
        0 <= spec_epoch_secs(c) <= MAX_EPOCH_SECS,
{
    let y = c.year as int;
    let m = c.month as int;
    let d = c.day as int;
    let yp: int = if m <= 2 {
        y - 1
    } else {
        y
    };
    let era = yp / 400;
    let yoe = yp % 400;
    let mp: int = if m > 2 {
        m - 3
    } else {
        m + 9
    };
    let doy = (153 * mp + 2) / 5 + d - 1;
    let doe = yoe * 365 + yoe / 4 - yoe / 100 + doy;
    lemma_fundamental_div_mod(yp, 400);
    vstd::arithmetic::div_mod::lemma_mod_bound(yp, 400);
    assert(0 <= (153 * mp + 2) / 5 <= 337) by {
        vstd::arithmetic::div_mod::lemma_div_pos_is_pos(153 * mp + 2, 5);
        lemma_div_is_ordered(153 * mp + 2, 1685, 5);
    }
    assert(0 <= yoe / 4 <= 99) by {
        vstd::arithmetic::div_mod::lemma_div_pos_is_pos(yoe, 4);
        lemma_div_is_ordered(yoe, 399, 4);
    }
    assert(0 <= yoe / 100 <= 3) by {
        vstd::arithmetic::div_mod::lemma_div_pos_is_pos(yoe, 100);
        lemma_div_is_ordered(yoe, 399, 100);
    }
    assert(0 <= yoe * 365 <= 145635) by {
        vstd::arithmetic::mul::lemma_mul_nonnegative(yoe, 365);
        vstd::arithmetic::mul::lemma_mul_inequality(yoe, 399, 365);
    }
    // Upper bound: the era count is at most 24 for years through 9999.
    assert(era <= 24) by {
        lemma_div_is_ordered(yp, 9999, 400);
    }
    assert(era * 146097 <= 3506328) by {
        vstd::arithmetic::mul::lemma_mul_inequality(era, 24, 146097);
    }
    // Lower bound: from 1970 on, the days since the epoch are non-negative.
    assert(era * 146097 + doe >= 719468) by {
        assert(era >= 4) by {
            lemma_div_is_ordered(1969, yp, 400);
        }
        if era >= 5 {
            vstd::arithmetic::mul::lemma_mul_inequality(5, era, 146097);
        } else {
            assert(era == 4);
            assert(yoe == yp - 1600);
            if m <= 2 {
                assert(mp == m + 9 >= 10);
                assert((153 * mp + 2) / 5 >= 306) by {
                    lemma_div_is_ordered(1532, 153 * mp + 2, 5);
                }
                assert(yoe >= 369);
                assert(yoe * 365 >= 134685) by {
                    vstd::arithmetic::mul::lemma_mul_inequality(369, yoe, 365);
                }
                assert(yoe / 4 >= 92) by {
                    lemma_div_is_ordered(369, yoe, 4);
                }
            } else {
                assert(yoe >= 370);
                assert(yoe * 365 >= 135050) by {
                    vstd::arithmetic::mul::lemma_mul_inequality(370, yoe, 365);
                }
                assert(yoe / 4 >= 92) by {
                    lemma_div_is_ordered(370, yoe, 4);
                }
            }
        }
    }
    assert(spec_days_from_civil(y, m, d) == era * 146097 + doe - 719468);
}

} // verus!

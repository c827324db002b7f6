//! Schedules for snapshot, prune and sync work.
//!
//! A schedule is written either as a cron expression (recognised by the
//! whitespace between its fields) or as a human duration such as `15m` or
//! `2h`, which stands for an equivalent periodic schedule. A duration that no
//! cron expression can express evenly is rejected, pointing the user at cron.
//! Given a schedule and an instant, the next fire instant strictly after it
//! is computed: natively for periodic schedules, through the `cron` crate for
//! cron expressions.

use std::str::FromStr;

use vstd::arithmetic::div_mod::lemma_fundamental_div_mod;
use vstd::arithmetic::mul::{lemma_mul_is_commutative, lemma_mul_is_distributive_add_other_way};
use vstd::prelude::*;
use vstd::string::StrSliceExecFns;

use crate::retention::MAX_RECORD_AT;
use crate::text::{digit_val, hex_char, push_hex_char};

verus! {

/// A schedule: a cron expression kept as written, or a fixed period aligned
/// to the epoch.
#[derive(Debug)]
pub enum Schedule {
    Cron { expr: String },
    Periodic { period_secs: u64 },
}

/// The mathematical shape of a schedule.
pub enum SpecSchedule {
    Cron { expr: Seq<char> },
    Periodic { period: int },
}

impl View for Schedule {
    type V = SpecSchedule;

    open spec fn view(&self) -> SpecSchedule {
        match self {
            Schedule::Cron { expr } => SpecSchedule::Cron { expr: expr@ },
            Schedule::Periodic { period_secs } => SpecSchedule::Periodic {
                period: *period_secs as int,
            },
        }
    }
}

/// What every schedule must satisfy to be queried for fire instants.
pub open spec fn spec_schedule_wf(v: SpecSchedule) -> bool {
    match v {
        SpecSchedule::Cron { expr } => true,
        SpecSchedule::Periodic { period } => period >= 1,
    }
}

impl Schedule {
    /// A usable schedule.
    pub open spec fn wf(&self) -> bool {
        spec_schedule_wf(self@)
    }
}

/// What the `cron` crate accepts as a schedule expression.
pub uninterp spec fn cron_accepts(s: Seq<char>) -> bool;

/// The next fire instant the `cron` crate computes for an expression after a
/// given epoch second, if any.
pub uninterp spec fn cron_next(s: Seq<char>, after: i64) -> Option<i64>;

/// Relies on `cron::Schedule::from_str`: whether the crate parses `expr`.
#[verifier::external_body]
fn cron_accepts_expr(expr: &str) -> (r: bool)
    ensures
        r == cron_accepts(expr@),
{
    cron::Schedule::from_str(expr).is_ok()
}

/// Relies on `cron::Schedule::from_str` and `Schedule::after`: the next
/// instant the expression fires after `after_secs`, in UTC. The crate starts
/// its search one second past the given instant, so a returned instant is
/// strictly later than `after_secs`. The bound on `after_secs` keeps that
/// one-second step far from the end of chrono's date range, where the
/// addition would abort.
#[verifier::external_body]
fn cron_next_after(expr: &str, after_secs: i64) -> (r: Option<i64>)
    requires
        after_secs <= MAX_RECORD_AT,
    ensures
        r == cron_next(expr@, after_secs),
        r matches Some(f) ==> f > after_secs,
{
    let schedule = match cron::Schedule::from_str(expr) {
        Ok(s) => s,
        Err(_) => return None,
    };
    let after = match chrono::DateTime::from_timestamp(after_secs, 0) {
        Some(d) => d,
        None => return None,
    };
    schedule.after(&after).next().map(|d| d.timestamp())
}

/// Whether `s` holds a space, the mark of a cron expression.
pub open spec fn contains_space(s: Seq<char>) -> bool {
    exists|i: int| 0 <= i < s.len() && s[i] == ' '
}

/// A period a cron expression can express evenly: whole seconds dividing a
/// minute, whole minutes dividing an hour, or whole hours dividing a day.
pub open spec fn clean_period(p: int) -> bool {
    &&& p >= 1
    &&& {
        ||| (p <= 60 && 60int % p == 0)
        ||| (p % 60 == 0 && p / 60 <= 60 && 60int % (p / 60) == 0)
        ||| (p % 3600 == 0 && p / 3600 <= 24 && 24int % (p / 3600) == 0)
    }
}

/// Seconds per duration unit letter, or zero for any other character.
pub open spec fn unit_secs(c: char) -> int {
    if c == 's' {
        1
    } else if c == 'm' {
        60
    } else if c == 'h' {
        3600
    } else if c == 'd' {
        86400
    } else {
        0
    }
}

/// The value of the first `n` characters of `s` read as decimal digits.
pub open spec fn digits_val(s: Seq<char>, n: int) -> int
    decreases n,
{
    if n <= 0 {
        0
    } else {
        digits_val(s, n - 1) * 10 + digit_val(s[n - 1])
    }
}

/// The shape of a human duration: one to five digits and a unit letter.
pub open spec fn duration_shape_ok(s: Seq<char>) -> bool {
    &&& 2 <= s.len() <= 6
    &&& forall|i: int| 0 <= i < s.len() - 1 ==> digit_val(#[trigger] s[i]) < 10
    &&& unit_secs(s.last()) >= 1
}

/// What a human duration denotes in seconds, when it is well shaped and
/// expressible as a cron period.
pub open spec fn spec_parse_duration(s: Seq<char>) -> Option<int> {
    if duration_shape_ok(s) {
        let p = digits_val(s, s.len() - 1) * unit_secs(s.last());
        if clean_period(p) {
            Some(p)
        } else {
            None
        }
    } else {
        None
    }
}

/// What parsing a schedule text yields.
pub open spec fn spec_parse_schedule(s: Seq<char>) -> Option<SpecSchedule> {
    if contains_space(s) {
        if cron_accepts(s) {
            Some(SpecSchedule::Cron { expr: s })
        } else {
            None
        }
    } else {
        match spec_parse_duration(s) {
            Some(p) => Some(SpecSchedule::Periodic { period: p }),
            None => None,
        }
    }
}

/// One or two decimal digits for a value below one hundred.
pub open spec fn dec2_chars(v: int) -> Seq<char> {
    if v < 10 {
        seq![hex_char(v)]
    } else {
        seq![hex_char(v / 10), hex_char(v % 10)]
    }
}

/// The canonical text of a schedule: a cron expression as written, a period
/// in the largest unit that divides it.
pub open spec fn spec_render_schedule(v: SpecSchedule) -> Seq<char> {
    match v {
        SpecSchedule::Cron { expr } => expr,
        SpecSchedule::Periodic { period } => if period % 3600 == 0 {
            dec2_chars(period / 3600).push('h')
        } else if period % 60 == 0 {
            dec2_chars(period / 60).push('m')
        } else {
            dec2_chars(period).push('s')
        },
    }
}

/// A schedule that parsing can produce, and rendering can reproduce.
pub open spec fn parseable(v: SpecSchedule) -> bool {
    match v {
        SpecSchedule::Cron { expr } => cron_accepts(expr) && contains_space(expr),
        SpecSchedule::Periodic { period } => clean_period(period),
    }
}

/// Why a schedule text was rejected.
#[derive(Clone, Copy, PartialEq, Eq, Structural, Debug)]
pub enum ScheduleError {
    /// The text has whitespace but the cron crate does not accept it.
    CronInvalid,
    /// The text has no whitespace and is not digits followed by s, m, h or d.
    DurationInvalid,
    /// The duration is understood but no cron expression fires that evenly.
    DurationNotClean,
}

/// Whether `s` holds a space character.
fn has_space(s: &str) -> (r: bool)
    ensures
        r == contains_space(s@),
{
    let n = s.unicode_len();
    let mut i: usize = 0;
    while i < n
        invariant
            n == s@.len(),
            i <= n,
            forall|j: int| 0 <= j < i ==> s@[j] != ' ',
        decreases n - i,
    {
        if s.get_char(i) == ' ' {
            return true;
        }
        i = i + 1;
    }
    false
}

/// Whether `p` is a period some cron expression fires at evenly.
fn is_clean_period(p: u64) -> (r: bool)
    ensures
        r == clean_period(p as int),
{
    p >= 1 && ((p <= 60 && 60 % p == 0) || (p % 60 == 0 && p / 60 <= 60 && 60 % (p / 60) == 0) || (
    p % 3600 == 0 && p / 3600 <= 24 && 24 % (p / 3600) == 0))
}

/// Parses a schedule: a cron expression when the text has whitespace, a
/// human duration otherwise. Returns exactly which check failed.
pub fn parse_schedule(text: &str) -> (r: Result<Schedule, ScheduleError>)
    ensures
        match r {
            Ok(sch) => {
                &&& spec_parse_schedule(text@) == Some(sch@)
                &&& sch.wf()
                &&& parseable(sch@)
            },
            Err(e) => {
                &&& spec_parse_schedule(text@) is None
                &&& (e == ScheduleError::CronInvalid <==> contains_space(text@) && !cron_accepts(
                    text@,
                ))
                &&& (e == ScheduleError::DurationInvalid <==> !contains_space(text@)
                    && !duration_shape_ok(text@))
                &&& (e == ScheduleError::DurationNotClean <==> !contains_space(text@)
                    && duration_shape_ok(text@) && !clean_period(
                    digits_val(text@, text@.len() - 1) * unit_secs(text@.last()),
                ))
            },
        },
{
    if has_space(text) {
        if cron_accepts_expr(text) {
            Ok(Schedule::Cron { expr: text.to_owned() })
        } else {
            Err(ScheduleError::CronInvalid)
        }
    } else {
        let n = text.unicode_len();
        if n < 2 || n > 6 {
            return Err(ScheduleError::DurationInvalid);
        }
        let unit_char = text.get_char(n - 1);
        let unit: u64 = match unit_char {
            's' => 1,
            'm' => 60,
            'h' => 3600,
            'd' => 86400,
            _ => {
                return Err(ScheduleError::DurationInvalid);
            },
        };
        let mut value: u64 = 0;
        let mut i: usize = 0;
        while i < n - 1
            invariant
                !contains_space(text@),
                2 <= n <= 6,
                n == text@.len(),
                i <= n - 1,
                forall|j: int| 0 <= j < i ==> digit_val(#[trigger] text@[j]) < 10,
                value == digits_val(text@, i as int),
            decreases n - 1 - i,
        {
            let c = text.get_char(i);
            let d: u64 = match c {
                '0' => 0,
                '1' => 1,
                '2' => 2,
                '3' => 3,
                '4' => 4,
                '5' => 5,
                '6' => 6,
                '7' => 7,
                '8' => 8,
                '9' => 9,
                _ => {
                    assert(digit_val(text@[i as int]) == 10);
                    assert(!duration_shape_ok(text@));
                    return Err(ScheduleError::DurationInvalid);
                },
            };
            proof {
                lemma_digits_val_bound(text@, i as int);
            }
            assert(digits_val(text@, i + 1) == value * 10 + d);
            value = value * 10 + d;
            i = i + 1;
        }
        assert(duration_shape_ok(text@));
        proof {
            lemma_digits_val_bound(text@, n as int - 1);
            vstd::arithmetic::mul::lemma_mul_upper_bound(value as int, 99999, unit as int, 86400);
            vstd::arithmetic::mul::lemma_mul_nonnegative(value as int, unit as int);
        }
        let p: u64 = value * unit;
        assert(p == digits_val(text@, text@.len() - 1) * unit_secs(text@.last()));
        if !is_clean_period(p) {
            return Err(ScheduleError::DurationNotClean);
        }
        Ok(Schedule::Periodic { period_secs: p })
    }
}

/// At most five digits are ever read, so the value stays small.
proof fn lemma_digits_val_bound(s: Seq<char>, n: int)
    requires
        0 <= n <= 5,
        forall|j: int| 0 <= j < n ==> digit_val(#[trigger] s[j]) < 10,
    ensures
        0 <= digits_val(s, n) < (if n == 0 {
            1int
        } else if n == 1 {
            10int
        } else if n == 2 {
            100int
        } else if n == 3 {
            1000int
        } else if n == 4 {
            10000int
        } else {
            100000int
        }),
    decreases n,
{
    if n > 0 {
        lemma_digits_val_bound(s, n - 1);
    }
}

} // verus!

// Rendering, next fire instants, and the laws of the scheduler.

verus! {

/// A clean period never exceeds one day.
proof fn lemma_clean_period_bound(p: int)
    requires
        clean_period(p),
    ensures
        1 <= p <= 86400,
{
    if p % 3600 == 0 && p / 3600 <= 24 && 24int % (p / 3600) == 0 && !(p <= 60) {
        lemma_fundamental_div_mod(p, 3600);
        vstd::arithmetic::mul::lemma_mul_inequality(p / 3600, 24, 3600);
        lemma_mul_is_commutative(p / 3600, 3600);
    }
}

/// Appends one or two decimal digits for `v`.
fn push_dec2(s: &mut String, v: u64)
    requires
        v < 100,
    ensures
        final(s)@ == old(s)@ + dec2_chars(v as int),
{
    if v < 10 {
        push_hex_char(s, v as u8);
    } else {
        push_hex_char(s, (v / 10) as u8);
        push_hex_char(s, (v % 10) as u8);
    }
    assert(s@ =~= old(s)@ + dec2_chars(v as int));
}

/// Appends a duration unit letter.
fn push_unit(s: &mut String, unit: char)
    requires
        unit == 's' || unit == 'm' || unit == 'h',
    ensures
        final(s)@ == old(s)@.push(unit),
{
    if unit == 's' {
        s.append("s");
        proof {
            reveal_strlit("s");
        }
    } else if unit == 'm' {
        s.append("m");
        proof {
            reveal_strlit("m");
        }
    } else {
        s.append("h");
        proof {
            reveal_strlit("h");
        }
    }
    assert(s@ =~= old(s)@.push(unit));
}

/// Renders a schedule in its canonical text.
pub fn render_schedule(s: &Schedule) -> (r: String)
    requires
        s@ matches SpecSchedule::Periodic { period } ==> clean_period(period),
    ensures
        r@ == spec_render_schedule(s@),
{
    match s {
        Schedule::Cron { expr } => expr.clone(),
        Schedule::Periodic { period_secs } => {
            let p = *period_secs;
            proof {
                lemma_clean_period_bound(p as int);
            }
            let mut out = String::new();
            if p % 3600 == 0 {
                proof {
                    vstd::arithmetic::div_mod::lemma_div_is_ordered(p as int, 86400, 3600);
                }
                push_dec2(&mut out, p / 3600);
                push_unit(&mut out, 'h');
            } else if p % 60 == 0 {
                proof {
                    vstd::arithmetic::div_mod::lemma_div_is_ordered(p as int, 86400, 60);
                    if !(p <= 3600) {
                        assert(clean_period(p as int));
                        lemma_fundamental_div_mod(p as int, 60);
                        assert(p as int / 60 > 60);
                        vstd::arithmetic::mul::lemma_mul_inequality(61, p as int / 60, 60);
                        lemma_mul_is_commutative(p as int / 60, 60);
                        assert(false);
                    }
                    vstd::arithmetic::div_mod::lemma_div_is_ordered(p as int, 3600, 60);
                }
                push_dec2(&mut out, p / 60);
                push_unit(&mut out, 'm');
            } else {
                assert(p <= 60);
                push_dec2(&mut out, p);
                push_unit(&mut out, 's');
            }
            proof {
                assert(out@ =~= spec_render_schedule(s@));
            }
            out
        },
    }
}

/// The next instant a schedule fires strictly after `after`: the next epoch
/// multiple of the period, or what the cron crate answers.
pub open spec fn spec_next_fire(v: SpecSchedule, after: i64) -> Option<i64> {
    match v {
        SpecSchedule::Periodic { period } => {
            let f = (after as int / period + 1) * period;
            if 0 <= after && f <= MAX_RECORD_AT {
                Some(f as i64)
            } else {
                None
            }
        },
        SpecSchedule::Cron { expr } => match cron_next(expr, after) {
            Some(f) => if f > after {
                Some(f)
            } else {
                None
            },
            None => None,
        },
    }
}

/// The delay from `after` to the next fire instant.
pub open spec fn spec_next_delay(v: SpecSchedule, after: i64) -> Option<u64> {
    match spec_next_fire(v, after) {
        Some(f) => Some((f - after) as u64),
        None => None,
    }
}

/// Computes the next fire instant of a schedule after the given instant.
pub fn next_fire(s: &Schedule, after: i64) -> (r: Option<i64>)
    requires
        s.wf(),
        0 <= after <= MAX_RECORD_AT,
    ensures
        r == spec_next_fire(s@, after),
        r matches Some(f) ==> f > after,
{
    let r = match s {
        Schedule::Periodic { period_secs } => {
            let p = *period_secs;
            let q: u64 = (after as u64) / p;
            proof {
                assert(q == after as int / p as int);
                vstd::arithmetic::div_mod::lemma_div_is_ordered_by_denominator(
                    after as int,
                    1,
                    p as int,
                );
                vstd::arithmetic::div_mod::lemma_div_basics_2(after as int);
                vstd::arithmetic::mul::lemma_mul_upper_bound(
                    q as int + 1,
                    MAX_RECORD_AT as int + 1,
                    p as int,
                    0xffff_ffff_ffff_ffff,
                );
                vstd::arithmetic::mul::lemma_mul_nonnegative(q as int + 1, p as int);
            }
            let fire: u128 = (q as u128 + 1) * (p as u128);
            if fire <= MAX_RECORD_AT as u128 {
                Some(fire as i64)
            } else {
                None
            }
        },
        Schedule::Cron { expr } => {
            match cron_next_after(expr.as_str(), after) {
                Some(f) => if f > after {
                    Some(f)
                } else {
                    None
                },
                None => None,
            }
        },
    };
    proof {
        if r is Some {
            lemma_next_fire_after(s@, after);
        }
    }
    r
}

/// Computes the delay from `after` to the next fire instant.
pub fn next_delay(s: &Schedule, after: i64) -> (r: Option<u64>)
    requires
        s.wf(),
        0 <= after <= MAX_RECORD_AT,
    ensures
        r == spec_next_delay(s@, after),
        r matches Some(d) ==> d > 0,
{
    match next_fire(s, after) {
        Some(f) => Some((f - after) as u64),
        None => None,
    }
}

/// Parses a schedule text and yields the delay to its next fire instant:
/// what a tick scheduler asks before arming a timer.
pub fn schedule_next_delay(text: &str, after: i64) -> (r: Option<u64>)
    requires
        0 <= after <= MAX_RECORD_AT,
    ensures
        match spec_parse_schedule(text@) {
            Some(v) => r == spec_next_delay(v, after),
            None => r is None,
        },
{
    match parse_schedule(text) {
        Ok(s) => next_delay(&s, after),
        Err(_) => None,
    }
}

/// A fire instant lies strictly after the instant it was asked for.
pub proof fn lemma_next_fire_after(v: SpecSchedule, t: i64)
    requires
        spec_schedule_wf(v),
        0 <= t,
        spec_next_fire(v, t) is Some,
    ensures
        spec_next_fire(v, t)->0 > t,
{
    match v {
        SpecSchedule::Periodic { period } => {
            let q = t as int / period;
            lemma_fundamental_div_mod(t as int, period);
            vstd::arithmetic::div_mod::lemma_mod_bound(t as int, period);
            assert((q + 1) * period == q * period + period) by {
                lemma_mul_is_distributive_add_other_way(period, q, 1);
                lemma_mul_is_commutative(q + 1, period);
                lemma_mul_is_commutative(q, period);
            }
            assert(q * period == period * q) by {
                lemma_mul_is_commutative(q, period);
            }
        },
        SpecSchedule::Cron { expr } => {},
    }
}

/// Schedule monotonicity: queried from at or after a fire instant, the next
/// fire instant is strictly later.
pub proof fn lemma_next_fire_strictly_increasing(v: SpecSchedule, t1: i64, t2: i64)
    requires
        spec_schedule_wf(v),
        0 <= t1,
        0 <= t2,
        spec_next_fire(v, t1) is Some,
        spec_next_fire(v, t2) is Some,
        spec_next_fire(v, t1)->0 <= t2,
    ensures
        spec_next_fire(v, t1)->0 < spec_next_fire(v, t2)->0,
{
    lemma_next_fire_after(v, t2);
}

/// Reading back a rendered schedule gives the schedule: the parse of the
/// canonical text of any parseable schedule is that schedule.
pub proof fn lemma_schedule_render_roundtrip(v: SpecSchedule)
    ensures
        parseable(v) ==> spec_parse_schedule(spec_render_schedule(v)) == Some(v),
{
    if parseable(v) {
        match v {
            SpecSchedule::Cron { expr } => {},
            SpecSchedule::Periodic { period } => {
                lemma_clean_period_bound(period);
                let s = spec_render_schedule(v);
                let x: int = if period % 3600 == 0 {
                    period / 3600
                } else if period % 60 == 0 {
                    period / 60
                } else {
                    period
                };
                let u: char = if period % 3600 == 0 {
                    'h'
                } else if period % 60 == 0 {
                    'm'
                } else {
                    's'
                };
                assert(1 <= x <= 99) by {
                    if period % 3600 == 0 {
                        vstd::arithmetic::div_mod::lemma_div_is_ordered(period, 86400, 3600);
                        vstd::arithmetic::div_mod::lemma_div_pos_is_pos(period, 3600);
                        lemma_fundamental_div_mod(period, 3600);
                    } else if period % 60 == 0 {
                        vstd::arithmetic::div_mod::lemma_div_is_ordered(period, 86400, 60);
                        vstd::arithmetic::div_mod::lemma_div_pos_is_pos(period, 60);
                        lemma_fundamental_div_mod(period, 60);
                        if !(period <= 3600) {
                            assert(period / 60 > 60);
                            vstd::arithmetic::mul::lemma_mul_inequality(61, period / 60, 60);
                            lemma_mul_is_commutative(period / 60, 60);
                            assert(false);
                        }
                        vstd::arithmetic::div_mod::lemma_div_is_ordered(period, 3600, 60);
                    }
                }
                assert(s =~= dec2_chars(x).push(u));
                assert(!contains_space(s)) by {
                    assert forall|i: int| 0 <= i < s.len() implies s[i] != ' ' by {
                        if i < s.len() - 1 {
                            assert(s[i] == dec2_chars(x)[i]);
                        }
                    }
                }
                assert(duration_shape_ok(s)) by {
                    assert forall|i: int| 0 <= i < s.len() - 1 implies digit_val(
                        #[trigger] s[i],
                    ) < 10 by {
                        assert(s[i] == dec2_chars(x)[i]);
                        if x < 10 {
                            crate::text::lemma_hex_char_val(x);
                        } else {
                            crate::text::lemma_hex_char_val(x / 10);
                            crate::text::lemma_hex_char_val(x % 10);
                        }
                    }
                }
                assert(digits_val(s, s.len() - 1) == x) by {
                    assert(digits_val(s, 0) == 0);
                    if x < 10 {
                        crate::text::lemma_hex_char_val(x);
                        assert(s[0] == dec2_chars(x)[0]);
                        assert(digits_val(s, 1) == digit_val(s[0]));
                    } else {
                        vstd::arithmetic::div_mod::lemma_div_is_ordered(x, 99, 10);
                        vstd::arithmetic::div_mod::lemma_div_pos_is_pos(x, 10);
                        vstd::arithmetic::div_mod::lemma_mod_bound(x, 10);
                        crate::text::lemma_hex_char_val(x / 10);
                        crate::text::lemma_hex_char_val(x % 10);
                        assert(s[0] == dec2_chars(x)[0]);
                        assert(s[1] == dec2_chars(x)[1]);
                        assert(digits_val(s, 1) == digit_val(s[0]));
                        assert(digits_val(s, 2) == digits_val(s, 1) * 10 + digit_val(s[1]));
                        lemma_fundamental_div_mod(x, 10);
                    }
                }
                assert(digits_val(s, s.len() - 1) * unit_secs(s.last()) == period) by {
                    if period % 3600 == 0 {
                        lemma_fundamental_div_mod(period, 3600);
                        lemma_mul_is_commutative(period / 3600, 3600);
                    } else if period % 60 == 0 {
                        lemma_fundamental_div_mod(period, 60);
                        lemma_mul_is_commutative(period / 60, 60);
                    }
                }
                assert(spec_parse_duration(s) == Some(period));
            },
        }
    }
}

} // verus!

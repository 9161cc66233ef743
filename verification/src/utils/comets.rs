//! Parse MPC's comet orbit file into the same elements MPCORB feeds.
//!
//! Comets are distributed separately from the minor planets and in a different
//! form: perihelion distance and time rather than semimajor axis and mean
//! anomaly, and eccentricities that reach and pass 1. Both reduce to the same
//! `OrbitalElements`.

use crate::utils::calendar;
use crate::utils::calendar::{countable, DateTerms};
use crate::utils::designation;
use crate::utils::double;
use crate::utils::double::Double;
use crate::utils::sso_geometry::OrbitalElements;
use crate::utils::text;
use crate::utils::text::{ascii_digit, chars, column_between, cut, digits_between, text_of, trim};
use vstd::prelude::*;
use vstd::string::*;
use vstd::utf8::*;

verus! {

/// Where MPC publishes comet elements.
pub const DEFAULT_COMETELS_URL: &'static str =
    "https://www.minorplanetcenter.net/iau/MPCORB/CometEls.txt";

/// A parsed comet, keyed as ZTF's `ssnamenr` writes it.
#[derive(Debug, Clone, PartialEq)]
pub struct CometEntry {
    pub designation: String,
    pub h: Option<Double>,
    pub g: Option<Double>,
    pub elements: OrbitalElements,
}

/// The bytes from `from` to `to` or to the end of the line, trimmed.
pub open spec fn open_column(line: Seq<char>, from: int, to: int) -> Option<Seq<char>> {
    let end = encode_utf8(line).len();
    text::column_text(line, from, if to < end {
        to
    } else {
        end as int
    })
}

/// The bytes from `from` to `to` or to the end of the line, trimmed.
pub fn column(line: &str, from: usize, to: usize) -> (r: Option<&str>)
    ensures
        match r {
            Some(t) => open_column(line@, from as int, to as int) == Some(t@),
            None => open_column(line@, from as int, to as int) is None,
        },
{
    let end: usize = line.as_bytes().len();
    column_between(line, from, if to < end {
        to
    } else {
        end
    })
}

/// Whole parts of the Julian date of a calendar date, all but the day.
///
/// Gregorian only, which covers every epoch MPC publishes.
pub fn julian_date(year: i64, month: i64) -> (r: DateTerms)
    requires
        calendar::is_countable(year as int, month as int),
    ensures
        calendar::are_terms(r, year as int, month as int),
        1 <= month <= 12 ==> forall|day: int| #[trigger]
            calendar::half_days_of(r, day) == calendar::half_days(year as int, month as int, day),
{
    let terms = calendar::date_terms(year, month);
    proof {
        if 1 <= month <= 12 {
            assert forall|day: int| #[trigger]
                calendar::half_days_of(terms, day) == calendar::half_days(
                    year as int,
                    month as int,
                    day,
                ) by {
                calendar::law_terms_count_calendar_days(terms, year as int, month as int, day);
            }
        }
    }
    terms
}

/// `s` without its spaces.
pub open spec fn without_spaces(s: Seq<char>) -> Seq<char>
    decreases s.len(),
{
    if s.len() == 0 {
        seq![]
    } else if s.last() == ' ' {
        without_spaces(s.drop_last())
    } else {
        without_spaces(s.drop_last()).push(s.last())
    }
}

/// The key of a comet by the name in the last column: what stands before the slash
/// where that begins with a digit, else all of the name before its parenthesis, without
/// spaces.
pub open spec fn comet_key(name: Seq<char>) -> Option<Seq<char>> {
    let designation = text::trimmed(name.take(designation::first_index(name, '(', 0)));
    let slash = designation::first_index(designation, '/', 0);
    if designation.len() == 0 {
        None
    } else if slash < designation.len() && slash > 0 && text::is_digit(designation[0]) {
        Some(designation.take(slash))
    } else {
        Some(without_spaces(designation))
    }
}

/// The key that the last column of a line gives.
pub open spec fn line_key(line: Seq<char>) -> Option<Seq<char>> {
    match open_column(line, 102, encode_utf8(line).len() as int) {
        Some(name) => comet_key(name),
        None => None,
    }
}

/// The key ZTF's `ssnamenr` would carry for this comet.
///
/// A numbered periodic comet is written as its number and orbit type (`1P`);
/// everything else keeps its full designation with the space removed, which is
/// the form IPAC stamps on the alert (`C/2025Q3`).
pub fn designation_for(line: &str) -> (r: Option<String>)
    ensures
        designation::text_view(r) == line_key(line@),
{
    let name = match column(line, 102, line.as_bytes().len()) {
        Some(t) => t,
        None => {
            return None;
        },
    };
    let all = chars(name);
    let open: usize = designation::find_char(&all, '(', 0);
    let before = text_of(&all, 0, open);
    assert(before@ == name@.take(open as int));
    let c = chars(trim(before.as_str()));
    let n: usize = c.len();
    if n == 0 {
        return None;
    }
    let slash: usize = designation::find_char(&c, '/', 0);
    if slash < n && slash > 0 && ascii_digit(c[0]) {
        assert(c@.take(slash as int) == c@.subrange(0, slash as int));
        return Some(text_of(&c, 0, slash));
    }
    let mut out: String = String::new();
    let mut i: usize = 0;
    while i < n
        invariant
            i <= n,
            n == c.len(),
            out@ == without_spaces(c@.take(i as int)),
        decreases n - i,
    {
        assert(c@.take(i + 1).drop_last() == c@.take(i as int));
        if c[i] != ' ' {
            out.push(c[i]);
        }
        i = i + 1;
    }
    assert(c@.take(n as int) == c@);
    Some(out)
}

/// What the numeric columns of a line read as; nothing where a column holds no number.
#[derive(Debug, Clone, Copy)]
pub struct CometNumbers {
    /// Year, month and day of the perihelion.
    pub year: Option<Double>,
    pub month: Option<Double>,
    pub day: Option<Double>,
    pub q: Option<Double>,
    pub e: Option<Double>,
    pub peri: Option<Double>,
    pub node: Option<Double>,
    pub incl: Option<Double>,
    /// The last two digits of the epoch stamp.
    pub stamp_day: Option<Double>,
    pub h: Option<Double>,
    pub g: Option<Double>,
}

/// `value` is what `number` made of the bytes from `from` to `to`.
pub open spec fn open_column_reads<F: Fn(&str) -> Option<Double>>(
    number: F,
    line: Seq<char>,
    from: int,
    to: int,
    value: Option<Double>,
) -> bool {
    match open_column(line, from, to) {
        Some(t) => exists|s: &str| s@ == t && #[trigger] number.ensures((s,), value),
        None => value is None,
    }
}

/// The epoch stamp of a line, where its column holds eight bytes.
pub open spec fn stamp(line: Seq<char>) -> Option<Seq<char>> {
    match open_column(line, 81, 89) {
        Some(t) => if encode_utf8(t).len() == 8 {
            Some(t)
        } else {
            None
        },
        None => None,
    }
}

/// The bytes `from..to` of a text, not trimmed.
pub open spec fn part(s: Seq<char>, from: int, to: int) -> Seq<char> {
    decode_utf8(encode_utf8(s).subrange(from, to))
}

/// The stamp can be cut behind its year and its month.
pub open spec fn can_be_cut(s: Seq<char>) -> bool {
    is_char_boundary(encode_utf8(s), 4) && is_char_boundary(encode_utf8(s), 6)
}

/// The stamp can be cut as far as it is read: behind its year, and where that is a number
/// behind its month.
pub open spec fn is_cut_where_read(s: Seq<char>) -> bool {
    &&& is_char_boundary(encode_utf8(s), 4)
    &&& signed(part(s, 0, 4)) is Some ==> is_char_boundary(encode_utf8(s), 6)
}

/// `n` is what `number` made of the numeric columns of `line`.
pub open spec fn line_reads<F: Fn(&str) -> Option<Double>>(
    number: F,
    line: Seq<char>,
    n: CometNumbers,
) -> bool {
    &&& open_column_reads(number, line, 14, 18, n.year)
    &&& open_column_reads(number, line, 19, 21, n.month)
    &&& open_column_reads(number, line, 22, 29, n.day)
    &&& open_column_reads(number, line, 30, 39, n.q)
    &&& open_column_reads(number, line, 40, 49, n.e)
    &&& open_column_reads(number, line, 50, 59, n.peri)
    &&& open_column_reads(number, line, 60, 69, n.node)
    &&& open_column_reads(number, line, 70, 79, n.incl)
    &&& open_column_reads(number, line, 90, 95, n.h)
    &&& open_column_reads(number, line, 96, 100, n.g)
    &&& match stamp(line) {
        Some(t) => can_be_cut(t) ==> exists|s: &str|
            s@ == part(t, 6, 8) && #[trigger] number.ensures((s,), n.stamp_day),
        None => n.stamp_day is None,
    }
}

/// The integer that a text writes, with an optional sign.
pub open spec fn signed(s: Seq<char>) -> Option<int> {
    if s.len() > 0 && s[0] == '-' {
        if s.len() > 1 && text::all_digits(s.skip(1)) {
            Some(-(text::digits_value(s.skip(1)) as int))
        } else {
            None
        }
    } else {
        match designation::unsigned(s) {
            Some(v) => Some(v as int),
            None => None,
        }
    }
}

/// Above 0 and not infinite.
pub open spec fn is_positive_finite(d: Double) -> bool {
    double::lt(Double { bits: 0 }, d) && double::lt(d, Double { bits: 0x7ff0_0000_0000_0000 })
}

/// From 0 on and not infinite.
pub open spec fn is_nonnegative_finite(d: Double) -> bool {
    double::le(Double { bits: 0 }, d) && double::lt(d, Double { bits: 0x7ff0_0000_0000_0000 })
}

/// The line gives a time and a shape of the orbit: it is long enough and not blank, the
/// perihelion has a date, and its distance and the eccentricity are usable.
pub open spec fn has_orbit(line: Seq<char>, n: CometNumbers) -> bool {
    &&& encode_utf8(line).len() >= 100
    &&& text::trimmed(line).len() > 0
    &&& n.year is Some && n.month is Some && n.day is Some
    &&& n.q is Some && is_positive_finite(n.q->0)
    &&& n.e is Some && is_nonnegative_finite(n.e->0)
}

/// Year and month of the perihelion.
pub open spec fn perihelion_date(n: CometNumbers) -> (int, int) {
    (double::truncated(n.year->0), double::truncated(n.month->0))
}

/// The perihelion date can be counted, and the stamp can be cut where it is reached.
pub open spec fn is_readable(line: Seq<char>, n: CometNumbers) -> bool {
    &&& encode_utf8(line).len() >= 100 && text::trimmed(line).len() > 0 && n.year is Some
        && n.month is Some && n.day is Some ==> calendar::is_countable(
        perihelion_date(n).0,
        perihelion_date(n).1,
    )
    &&& has_orbit(line, n) && stamp(line) is Some ==> is_cut_where_read(stamp(line)->0)
}

/// Year, month and day of the stamp are numbers, where there is a stamp.
pub open spec fn has_usable_stamp(line: Seq<char>, n: CometNumbers) -> bool {
    match stamp(line) {
        Some(t) => {
            &&& signed(part(t, 0, 4)) is Some
            &&& signed(part(t, 4, 6)) is Some
            &&& n.stamp_day is Some
        },
        None => true,
    }
}

/// The line is a record.
pub open spec fn is_record(line: Seq<char>, n: CometNumbers) -> bool {
    &&& has_orbit(line, n)
    &&& has_usable_stamp(line, n)
    &&& line_key(line) is Some
    &&& n.incl is Some && n.node is Some && n.peri is Some
}

/// `jd` is what `date` makes of a calendar date.
pub open spec fn is_date<D: Fn(DateTerms, Double) -> Double>(
    date: D,
    year: int,
    month: int,
    day: Double,
    jd: Double,
) -> bool {
    exists|terms: DateTerms|
        #![trigger calendar::are_terms(terms, year, month)]
        calendar::are_terms(terms, year, month) && date.ensures((terms, day), jd)
}

/// `entry` is the comet that `line` and its numbers describe. The Julian dates are what
/// `date` makes of the calendar dates, and the semimajor axis is what `axis` makes of the
/// perihelion distance and the eccentricity of a closed orbit, and 0 for an open one.
pub open spec fn is_entry_of<
    D: Fn(DateTerms, Double) -> Double,
    A: Fn(Double, Double) -> Double,
>(entry: CometEntry, line: Seq<char>, n: CometNumbers, date: D, axis: A) -> bool {
    let el = entry.elements;
    &&& is_record(line, n)
    &&& line_key(line) == Some(entry.designation@)
    &&& entry.h == n.h
    &&& entry.g == n.g
    &&& is_date(date, perihelion_date(n).0, perihelion_date(n).1, n.day->0, el.tp)
    &&& match stamp(line) {
        Some(t) => is_date(
            date,
            signed(part(t, 0, 4))->0,
            signed(part(t, 4, 6))->0,
            n.stamp_day->0,
            el.epoch_jd,
        ),
        None => el.epoch_jd == el.tp,
    }
    &&& if double::lt(n.e->0, Double { bits: 0x3ff0_0000_0000_0000 }) {
        axis.ensures((n.q->0, n.e->0), el.a)
    } else {
        el.a == Double { bits: 0 }
    }
    &&& el.e == n.e->0
    &&& el.q == n.q->0
    &&& el.incl == n.incl->0
    &&& el.node == n.node->0
    &&& el.peri == n.peri->0
    &&& el.mean_anomaly == Double { bits: 0 }
}

/// Read the number in the bytes from `from` to `to`.
fn number_in<F: Fn(&str) -> Option<Double>>(
    line: &str,
    from: usize,
    to: usize,
    number: &F,
) -> (r: Option<Double>)
    requires
        forall|s: &str| #[trigger] number.requires((s,)),
    ensures
        open_column_reads(*number, line@, from as int, to as int, r),
{
    match column(line, from, to) {
        Some(t) => number(t),
        None => None,
    }
}

/// The epoch stamp of a line.
fn stamp_of(line: &str) -> (r: Option<&str>)
    ensures
        match r {
            Some(t) => stamp(line@) == Some(t@),
            None => stamp(line@) is None,
        },
{
    match column(line, 81, 89) {
        Some(t) => if t.as_bytes().len() == 8 {
            Some(t)
        } else {
            None
        },
        None => None,
    }
}

/// Read the numeric columns of a line.
pub fn read_numbers<F: Fn(&str) -> Option<Double>>(line: &str, number: &F) -> (r: CometNumbers)
    requires
        forall|s: &str| #[trigger] number.requires((s,)),
    ensures
        line_reads(*number, line@, r),
{
    let stamp_day = match stamp_of(line) {
        Some(t) => if t.is_char_boundary(4) && t.is_char_boundary(6) {
            proof {
                encode_utf8_valid_utf8(t@);
                is_char_boundary_start_end_of_seq(encode_utf8(t@));
            }
            number(cut(t, 6, 8))
        } else {
            None
        },
        None => None,
    };
    CometNumbers {
        year: number_in(line, 14, 18, number),
        month: number_in(line, 19, 21, number),
        day: number_in(line, 22, 29, number),
        q: number_in(line, 30, 39, number),
        e: number_in(line, 40, 49, number),
        peri: number_in(line, 50, 59, number),
        node: number_in(line, 60, 69, number),
        incl: number_in(line, 70, 79, number),
        stamp_day,
        h: number_in(line, 90, 95, number),
        g: number_in(line, 96, 100, number),
    }
}

/// Whether the line can be read without running out of range.
pub fn readable(line: &str, n: CometNumbers) -> (r: bool)
    ensures
        r == is_readable(line@, n),
{
    if line.as_bytes().len() < 100 || trim(line).is_empty() {
        return true;
    }
    match (n.year, n.month, n.day) {
        (Some(year), Some(month), Some(_)) => {
            if !countable(year.truncate(), month.truncate()) {
                return false;
            }
        },
        _ => {
            return true;
        },
    }
    let infinity = Double { bits: 0x7ff0_0000_0000_0000 };
    match (n.q, n.e) {
        (Some(q), Some(e)) => {
            if !(Double::zero().less_than(q) && q.less_than(infinity) && Double::zero().at_most(e)
                && e.less_than(infinity)) {
                return true;
            }
        },
        _ => {
            return true;
        },
    }
    match stamp_of(line) {
        Some(t) => {
            if !t.is_char_boundary(4) {
                return false;
            }
            proof {
                encode_utf8_valid_utf8(t@);
                is_char_boundary_start_end_of_seq(encode_utf8(t@));
            }
            t.is_char_boundary(6) || signed_number(cut(t, 0, 4)).is_none()
        },
        None => true,
    }
}

/// The integer that a text of at most four bytes writes.
fn signed_number(t: &str) -> (r: Option<i64>)
    requires
        encode_utf8(t@).len() <= 4,
    ensures
        match r {
            Some(v) => signed(t@) == Some(v as int) && -10_000 < v < 10_000,
            None => signed(t@) is None,
        },
{
    proof {
        text::lemma_bytes_per_char(t@);
    }
    let c = chars(t);
    let n: usize = c.len();
    if n == 0 {
        return None;
    }
    let from: usize = if c[0] == '-' || c[0] == '+' {
        1
    } else {
        0
    };
    proof {
        assert(c@.subrange(0, n as int) == c@);
        assert(c@.subrange(1, n as int) == c@.skip(1));
    }
    if from == n || !digits_between(&c, from, n) {
        return None;
    }
    let v: i64 = designation::digits_number(&c, from, n) as i64;
    if c[0] == '-' {
        Some(-v)
    } else {
        Some(v)
    }
}

/// Make the entry of a line from what its numeric columns read as.
pub fn entry_from_numbers<D: Fn(DateTerms, Double) -> Double, A: Fn(Double, Double) -> Double>(
    line: &str,
    n: CometNumbers,
    date: &D,
    axis: &A,
) -> (r: Option<CometEntry>)
    requires
        is_readable(line@, n),
        forall|t: DateTerms, d: Double| #[trigger] date.requires((t, d)),
        forall|q: Double, e: Double| #[trigger] axis.requires((q, e)),
    ensures
        match r {
            Some(entry) => is_entry_of(entry, line@, n, *date, *axis),
            None => !is_record(line@, n),
        },
{
    if line.as_bytes().len() < 100 || trim(line).is_empty() {
        return None;
    }
    let infinity = Double { bits: 0x7ff0_0000_0000_0000 };
    let one = Double { bits: 0x3ff0_0000_0000_0000 };
    let tp = match (n.year, n.month, n.day) {
        (Some(year), Some(month), Some(day)) => date(
            julian_date(year.truncate(), month.truncate()),
            day,
        ),
        _ => {
            return None;
        },
    };
    let (q, e) = match (n.q, n.e) {
        (Some(q), Some(e)) => (q, e),
        _ => {
            return None;
        },
    };
    if !(Double::zero().less_than(q) && Double::zero().at_most(e) && q.less_than(infinity)
        && e.less_than(infinity)) {
        return None;
    }
    // The epoch column is only filled for perturbed solutions; the elements are
    // referred to perihelion regardless, which is what the propagator uses.
    let epoch_jd = match stamp_of(line) {
        Some(t) => {
            proof {
                encode_utf8_valid_utf8(t@);
                is_char_boundary_start_end_of_seq(encode_utf8(t@));
            }
            let year = match signed_number(cut(t, 0, 4)) {
                Some(year) => year,
                None => {
                    return None;
                },
            };
            match (signed_number(cut(t, 4, 6)), n.stamp_day) {
                (Some(month), Some(day)) => date(julian_date(year, month), day),
                _ => {
                    return None;
                },
            }
        },
        None => tp,
    };
    let designation = match designation_for(line) {
        Some(d) => d,
        None => {
            return None;
        },
    };
    match (n.incl, n.node, n.peri) {
        (Some(incl), Some(node), Some(peri)) => {
            // Undefined for a parabola and negative for a hyperbola; `q` and `e`
            // are what the propagator reads.
            let a = if e.less_than(one) {
                axis(q, e)
            } else {
                Double::zero()
            };
            let elements = OrbitalElements {
                epoch_jd,
                a,
                e,
                incl,
                node,
                peri,
                mean_anomaly: Double::zero(),
                q,
                tp,
            };
            Some(CometEntry { designation, h: n.h, g: n.g, elements })
        },
        _ => None,
    }
}

/// Parse one record, or `None` when it is a header or unusable.
///
/// `number` reads a number from the text of a column, `date` adds the day to the terms of
/// a Julian date, and `axis` gives the semimajor axis of a closed orbit.
pub fn parse_line<
    F: Fn(&str) -> Option<Double>,
    D: Fn(DateTerms, Double) -> Double,
    A: Fn(Double, Double) -> Double,
>(line: &str, number: &F, date: &D, axis: &A) -> (r: Option<CometEntry>)
    requires
        forall|s: &str| #[trigger] number.requires((s,)),
        forall|t: DateTerms, d: Double| #[trigger] date.requires((t, d)),
        forall|q: Double, e: Double| #[trigger] axis.requires((q, e)),
        forall|n: CometNumbers| #[trigger] line_reads(*number, line@, n) ==> is_readable(line@, n),
    ensures
        exists|n: CometNumbers| #[trigger]
            line_reads(*number, line@, n) && match r {
                Some(entry) => is_entry_of(entry, line@, n, *date, *axis),
                None => !is_record(line@, n),
            },
{
    let n = read_numbers(line, number);
    entry_from_numbers(line, n, date, axis)
}

} // verus!

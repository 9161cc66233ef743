//! MPCORB parsing: fixed-width orbital elements from the Minor Planet Center.
//!
//! Format: <https://minorplanetcenter.net/iau/info/MPOrbitFormat.html>

pub use crate::utils::calendar::julian_date;
pub use crate::utils::designation::{normalize_ztf_ssnamenr, packed_value, unpack_designation};
pub use crate::utils::orbits::{
    elements_from_document, fetch_orbits, fill_geometry, has_geometry, orbits_age_seconds,
    to_document, OrbitCache, GEOMETRY_FIELDS, ORBITS_COLLECTION,
};
pub use crate::utils::refresh::{
    refresh_orbits, RefreshError, RefreshReport, DEFAULT_MPCORB_URL, DOWNLOAD_TIMEOUT,
    STAGING_COLLECTION,
};

use crate::utils::calendar;
use crate::utils::designation;
use crate::utils::designation::unpack_year;
use crate::utils::double;
use crate::utils::double::Double;
use crate::utils::sso_geometry;
use crate::utils::sso_geometry::{OrbitalElements, Perihelion};
use crate::utils::text;
use crate::utils::text::{ascii_digit, chars, column_between, trim};
use vstd::prelude::*;
use vstd::string::*;
use vstd::utf8::*;

verus! {

/// One MPCORB record.
#[derive(Debug, Clone, PartialEq)]
pub struct MpcorbEntry {
    /// Unpacked designation, matching the convention ZTF uses in `ssnamenr`
    /// (`"1"`, `"363205"`, `"2014 WF524"`).
    pub designation: String,
    /// Absolute magnitude.
    pub h: Option<Double>,
    /// Slope parameter.
    pub g: Option<Double>,
    pub elements: OrbitalElements,
}

/// Twice the Julian date that a packed epoch stands for.
pub open spec fn packed_epoch(s: Seq<char>) -> Option<int> {
    if s.len() != 5 {
        None
    } else {
        match (
            designation::packed_year(s),
            designation::packed_number(s[3]),
            designation::packed_number(s[4]),
        ) {
            (Some(year), Some(month), Some(day)) => if 1 <= month <= 12 && 1 <= day <= 31 {
                Some(calendar::half_days(year as int, month as int, day as int))
            } else {
                None
            },
            _ => None,
        }
    }
}

/// `jd` is the Julian date with these half-days.
pub open spec fn is_epoch(jd: Double, half_days: int) -> bool {
    half_days > 0 && double::is_half_of(jd, half_days as nat)
}

/// Packed epoch (`"K2669"` = 2026 June 9) to Julian Date at 0h TT.
pub fn unpack_epoch(packed: &str) -> (r: Option<Double>)
    ensures
        match r {
            Some(jd) => packed_epoch(text::trimmed(packed@)) is Some && is_epoch(
                jd,
                packed_epoch(text::trimmed(packed@))->0,
            ),
            None => packed_epoch(text::trimmed(packed@)) is None,
        },
{
    let c = chars(trim(packed));
    if c.len() != 5 {
        return None;
    }
    match (unpack_year(&c), packed_value(c[3]), packed_value(c[4])) {
        (Some(year), Some(month), Some(day)) => match julian_date(
            year as i64,
            month as i64,
            day as i64,
        ) {
            Some(half_days) => {
                proof {
                    lemma_half_days_bound(year as int, month as int, day as int);
                }
                Some(Double::half_of(half_days as u64))
            },
            None => None,
        },
        _ => None,
    }
}

/// The dates that packed epochs can name have seven-digit Julian dates.
proof fn lemma_half_days_bound(year: int, month: int, day: int)
    requires
        1800 <= year < 2100,
        1 <= month <= 12,
        1 <= day <= 31,
    ensures
        4_000_000 < calendar::half_days(year, month, day) < 6_000_000,
{
    reveal_with_fuel(calendar::days_before_month, 13);
}

/// The bytes `start..end` of a line, trimmed.
pub fn field(line: &str, start: usize, end: usize) -> (r: Option<&str>)
    ensures
        match r {
            Some(t) => text::column_text(line@, start as int, end as int) == Some(t@),
            None => text::column_text(line@, start as int, end as int) is None,
        },
{
    column_between(line, start, end)
}

/// What the numeric columns of a line read as; nothing where a column holds no number.
#[derive(Debug, Clone, Copy)]
pub struct LineNumbers {
    pub h: Option<Double>,
    pub g: Option<Double>,
    pub mean_anomaly: Option<Double>,
    pub peri: Option<Double>,
    pub node: Option<Double>,
    pub incl: Option<Double>,
    pub e: Option<Double>,
    pub a: Option<Double>,
}

/// `value` is what `number` made of the bytes `start..end` of `line`.
pub open spec fn column_reads<F: Fn(&str) -> Option<Double>>(
    number: F,
    line: Seq<char>,
    start: int,
    end: int,
    value: Option<Double>,
) -> bool {
    match text::column_text(line, start, end) {
        Some(t) => exists|s: &str| s@ == t && #[trigger] number.ensures((s,), value),
        None => value is None,
    }
}

/// `n` is what `number` made of the numeric columns of `line`.
pub open spec fn line_reads<F: Fn(&str) -> Option<Double>>(
    number: F,
    line: Seq<char>,
    n: LineNumbers,
) -> bool {
    &&& column_reads(number, line, 8, 13, n.h)
    &&& column_reads(number, line, 14, 19, n.g)
    &&& column_reads(number, line, 26, 35, n.mean_anomaly)
    &&& column_reads(number, line, 37, 46, n.peri)
    &&& column_reads(number, line, 48, 57, n.node)
    &&& column_reads(number, line, 59, 68, n.incl)
    &&& column_reads(number, line, 70, 79, n.e)
    &&& column_reads(number, line, 92, 103, n.a)
}

/// Read the number in the bytes `start..end` of `line`.
fn parse_number<F: Fn(&str) -> Option<Double>>(
    line: &str,
    start: usize,
    end: usize,
    number: &F,
) -> (r: Option<Double>)
    requires
        forall|s: &str| #[trigger] number.requires((s,)),
    ensures
        column_reads(*number, line@, start as int, end as int, r),
{
    match field(line, start, end) {
        Some(t) => number(t),
        None => None,
    }
}

/// Read the numeric columns of a line.
pub fn read_numbers<F: Fn(&str) -> Option<Double>>(line: &str, number: &F) -> (r: LineNumbers)
    requires
        forall|s: &str| #[trigger] number.requires((s,)),
    ensures
        line_reads(*number, line@, r),
{
    LineNumbers {
        h: parse_number(line, 8, 13, number),
        g: parse_number(line, 14, 19, number),
        mean_anomaly: parse_number(line, 26, 35, number),
        peri: parse_number(line, 37, 46, number),
        node: parse_number(line, 48, 57, number),
        incl: parse_number(line, 59, 68, number),
        e: parse_number(line, 70, 79, number),
        a: parse_number(line, 92, 103, number),
    }
}

/// A closed orbit: a positive semimajor axis and an eccentricity from 0 and below 1.
pub open spec fn is_elliptical(a: Double, e: Double) -> bool {
    double::lt(Double { bits: 0 }, a) && double::le(Double { bits: 0 }, e) && double::lt(
        e,
        Double { bits: 0x3ff0_0000_0000_0000 },
    )
}

/// The line is a record: long enough, with a designation and an epoch in their columns,
/// and with the numbers of a closed orbit.
pub open spec fn is_record(line: Seq<char>, n: LineNumbers) -> bool {
    &&& encode_utf8(line).len() >= 103
    &&& record_designation(line) is Some
    &&& record_epoch(line) is Some
    &&& n.mean_anomaly is Some && n.peri is Some && n.node is Some && n.incl is Some
    &&& n.e is Some && n.a is Some
    &&& is_elliptical(n.a->0, n.e->0)
}

/// The designation in the columns of a line.
pub open spec fn record_designation(line: Seq<char>) -> Option<Seq<char>> {
    match text::column_text(line, 0, 7) {
        Some(packed) => designation::unpacked(packed),
        None => None,
    }
}

/// Twice the Julian date of the epoch in the columns of a line.
pub open spec fn record_epoch(line: Seq<char>) -> Option<int> {
    match text::column_text(line, 20, 25) {
        Some(packed) => packed_epoch(packed),
        None => None,
    }
}

/// The elements of a record, before the perihelion is derived from them.
pub open spec fn raw_elements(epoch_jd: Double, n: LineNumbers) -> OrbitalElements {
    sso_geometry::without_perihelion(
        epoch_jd,
        n.a->0,
        n.e->0,
        n.incl->0,
        n.node->0,
        n.peri->0,
        n.mean_anomaly->0,
    )
}

/// `entry` is the record that `line` and its numbers describe: its elements are those in the
/// columns, and only the perihelion is derived from them by `perihelion`.
pub open spec fn is_entry_of<P: Fn(OrbitalElements) -> Perihelion>(
    entry: MpcorbEntry,
    line: Seq<char>,
    n: LineNumbers,
    perihelion: P,
) -> bool {
    &&& is_record(line, n)
    &&& record_designation(line) == Some(entry.designation@)
    &&& entry.h == n.h
    &&& entry.g == n.g
    &&& is_epoch(entry.elements.epoch_jd, record_epoch(line)->0)
    &&& sso_geometry::is_completed(
        entry.elements,
        raw_elements(entry.elements.epoch_jd, n),
        perihelion,
    )
}

/// A column of seven bytes that holds seven characters holds ASCII, so each position is
/// a boundary.
proof fn lemma_designation_column(line: Seq<char>)
    ensures
        text::column_text(line, 0, 7) matches Some(packed) ==> designation::has_byte_columns(packed)
            && text::trimmed(packed) == packed,
{
    if text::column_text(line, 0, 7) is Some {
        let bytes = encode_utf8(line);
        let column = bytes.subrange(0, 7);
        let chars = decode_utf8(column);
        let packed = text::trimmed(chars);
        text::lemma_trim_is_trimmed(chars);
        encode_utf8_valid_utf8(line);
        valid_utf8_split(bytes, 7);
        decode_utf8_encode_utf8(column);
        text::lemma_bytes_per_char(chars);
        text::lemma_trim_start(chars);
        text::lemma_trim_end(text::trimmed_start(chars));
        if packed.len() == 7 {
            assert(chars.len() == 7);
            assert(text::trimmed_start(chars) == chars) by {
                if text::is_whitespace(chars[0]) {
                    text::lemma_trim_start(chars.drop_first());
                }
            }
            assert(packed == chars) by {
                if text::is_whitespace(chars.last()) {
                    text::lemma_trim_end(chars.drop_last());
                }
            }
            is_ascii_chars_encode_utf8(packed);
            let b = encode_utf8(packed);
            assert(is_char_boundary(b, 3)) by {
                is_char_boundary_iff_not_is_continuation_byte(b, 3);
            }
            is_char_boundary_start_end_of_seq(b);
        }
    }
}

/// Make the entry of a line from what its numeric columns read as.
pub fn entry_from_numbers<P: Fn(OrbitalElements) -> Perihelion>(
    line: &str,
    n: LineNumbers,
    perihelion: &P,
) -> (r: Option<MpcorbEntry>)
    requires
        forall|e: OrbitalElements| #[trigger] perihelion.requires((e,)),
    ensures
        match r {
            Some(entry) => is_entry_of(entry, line@, n, *perihelion),
            None => !is_record(line@, n),
        },
{
    if line.as_bytes().len() < 103 {
        return None;
    }
    proof {
        lemma_designation_column(line@);
        assert(text::column_text(line@, 20, 25) matches Some(packed) ==> text::trimmed(packed)
            == packed) by {
            text::lemma_trim_is_trimmed(decode_utf8(encode_utf8(line@).subrange(20, 25)));
        }
    }
    let packed = match field(line, 0, 7) {
        Some(t) => t,
        None => {
            return None;
        },
    };
    let designation = match unpack_designation(packed) {
        Some(d) => d,
        None => {
            return None;
        },
    };
    let epoch = match field(line, 20, 25) {
        Some(t) => t,
        None => {
            return None;
        },
    };
    let epoch_jd = match unpack_epoch(epoch) {
        Some(jd) => jd,
        None => {
            return None;
        },
    };
    match (n.mean_anomaly, n.peri, n.node, n.incl, n.e, n.a) {
        (Some(mean_anomaly), Some(peri), Some(node), Some(incl), Some(e), Some(a)) => {
            // A non-elliptical or degenerate orbit is not usable here. A pattern that is
            // not a number fails each comparison.
            let one = Double { bits: 0x3ff0_0000_0000_0000 };
            if Double::zero().less_than(a) && Double::zero().at_most(e) && e.less_than(one) {
                let elements = OrbitalElements::elliptical(
                    epoch_jd,
                    a,
                    e,
                    incl,
                    node,
                    peri,
                    mean_anomaly,
                    perihelion,
                );
                Some(MpcorbEntry { designation, h: n.h, g: n.g, elements })
            } else {
                None
            }
        },
        _ => None,
    }
}

/// Parse one MPCORB line. Returns `None` for headers, blank lines and any
/// record whose orbital elements are unusable.
///
/// `number` reads a number from the text of a column, and `perihelion` derives the
/// perihelion distance and time of elliptical elements. All other elements are those of the
/// columns.
pub fn parse_line<
    F: Fn(&str) -> Option<Double>,
    P: Fn(OrbitalElements) -> Perihelion,
>(line: &str, number: &F, perihelion: &P) -> (r: Option<MpcorbEntry>)
    requires
        forall|s: &str| #[trigger] number.requires((s,)),
        forall|e: OrbitalElements| #[trigger] perihelion.requires((e,)),
    ensures
        exists|n: LineNumbers| #[trigger]
            line_reads(*number, line@, n) && match r {
                Some(entry) => is_entry_of(entry, line@, n, *perihelion),
                None => !is_record(line@, n),
            },
{
    let n = read_numbers(line, number);
    entry_from_numbers(line, n, perihelion)
}

/// The line is long enough for a record and carries a digit.
pub open spec fn has_record_shape(line: Seq<char>) -> bool {
    encode_utf8(line).len() >= 103 && exists|i: int|
        0 <= i < line.len() && text::is_digit(#[trigger] line[i])
}

/// A dropped record still carries digits; MPCORB's column header and rule do not.
pub fn is_record_shaped(line: &str) -> (r: bool)
    ensures
        r == has_record_shape(line@),
{
    if line.as_bytes().len() < 103 {
        return false;
    }
    let c = chars(line);
    let mut i: usize = 0;
    while i < c.len()
        invariant
            i <= c.len(),
            c@ == line@,
            forall|k: int| 0 <= k < i ==> !text::is_digit(#[trigger] c@[k]),
            encode_utf8(line@).len() >= 103,
        decreases c.len() - i,
    {
        if ascii_digit(c[i]) {
            assert(text::is_digit(line@[i as int]));
            return true;
        }
        i = i + 1;
    }
    false
}

/// A line that parses is long enough for a record, and its orbit is closed: the semimajor
/// axis is positive, and the eccentricity from 0 and below 1, so that both are numbers.
/// Designation and epoch are those that its columns unpack to.
pub proof fn law_parsed_orbits_are_closed<P: Fn(OrbitalElements) -> Perihelion>(
    entry: MpcorbEntry,
    line: Seq<char>,
    n: LineNumbers,
    perihelion: P,
)
    requires
        is_entry_of(entry, line, n, perihelion),
    ensures
        encode_utf8(line).len() >= 103,
        is_elliptical(entry.elements.a, entry.elements.e),
        !double::is_nan(entry.elements.a) && !double::is_nan(entry.elements.e),
        record_designation(line) == Some(entry.designation@),
        is_epoch(entry.elements.epoch_jd, record_epoch(line)->0),
        entry.elements.a == n.a->0 && entry.elements.e == n.e->0,
        entry.elements.incl == n.incl->0 && entry.elements.node == n.node->0,
        entry.elements.peri == n.peri->0 && entry.elements.mean_anomaly == n.mean_anomaly->0,
{
}

/// Whether a line is a record does not rest on its absolute magnitude and slope: where they
/// cannot be read, the entry only lacks them.
pub proof fn law_unreadable_magnitudes_drop_no_record(
    line: Seq<char>,
    n: LineNumbers,
    h: Option<Double>,
    g: Option<Double>,
)
    ensures
        is_record(line, n) == is_record(line, (LineNumbers { h, g, ..n })),
{
}

/// A packed epoch stands for one date: two doubles that are it have the same bits.
pub proof fn law_epochs_are_unique(a: Double, b: Double, half_days: int)
    requires
        is_epoch(a, half_days),
        is_epoch(b, half_days),
    ensures
        a == b,
{
    double::law_halves_are_unique(a, b, half_days as nat);
}

/// A line that parses has the shape of a record, so that a line without it is never one that
/// was dropped.
pub proof fn law_records_have_record_shape(line: Seq<char>, n: LineNumbers)
    requires
        is_record(line, n),
    ensures
        has_record_shape(line),
{
    let packed = text::column_text(line, 20, 25)->0;
    text::lemma_column_is_part_of_line(line, 20, 25);
    assert(text::is_digit(packed[1]));
    let i = choose|i: int| 0 <= i < line.len() && line[i] == packed[1];
    assert(text::is_digit(line[i]));
}

} // verus!

//! What holds of the lines of orbit catalogues: which column an element is read from.

use crate::utils::calendar;
use crate::utils::calendar::DateTerms;
use crate::utils::comets;
use crate::utils::comets::{CometEntry, CometNumbers};
use crate::utils::designation;
use crate::utils::double;
use crate::utils::double::Double;
use crate::utils::double_laws;
use crate::utils::mpcorb;
use crate::utils::mpcorb::{LineNumbers, MpcorbEntry};
use crate::utils::refresh;
use crate::utils::sso_geometry;
use crate::utils::sso_geometry::{OrbitalElements, Perihelion};
use crate::utils::text;
use crate::utils::text_laws;
use vstd::prelude::*;
use vstd::utf8::*;

verus! {

/// `value` is what `number` makes of the bytes `from..to` of a line, without the white space
/// around them; nothing where the line has no such bytes.
pub open spec fn holds<F: Fn(&str) -> Option<Double>>(
    number: F,
    line: Seq<char>,
    from: int,
    to: int,
    value: Option<Double>,
) -> bool {
    let bytes = encode_utf8(line);
    if to <= bytes.len() && is_char_boundary(bytes, from) && is_char_boundary(bytes, to) {
        exists|s: &str|
            s@ == text::trimmed(decode_utf8(bytes.subrange(from, to)))
                && #[trigger] number.ensures((s,), value)
    } else {
        value is None
    }
}

/// In a line of ASCII a column is read from the characters that stand in it.
pub proof fn law_columns_are_read_from_their_characters<F: Fn(&str) -> Option<Double>>(
    number: F,
    line: Seq<char>,
    from: int,
    to: int,
    value: Option<Double>,
)
    requires
        is_ascii_chars(line),
        0 <= from <= to <= line.len(),
    ensures
        holds(number, line, from, to, value) <==> exists|s: &str|
            s@ == text::trimmed(line.subrange(from, to)) && #[trigger] number.ensures((s,), value),
{
    text_laws::law_columns_are_characters_of_the_line(line, from, to);
}

/// Every comet has its elements from the columns of its line: the perihelion distance from the
/// thirtieth byte on, then the eccentricity, the argument of perihelion, the node and the
/// inclination, ten bytes apart; the magnitude and the slope from the ninetieth and the
/// ninety-sixth. A closed orbit has the axis that its distance and eccentricity give, an open
/// one has none.
pub proof fn law_comets_are_read_from_their_columns<
    F: Fn(&str) -> Option<Double>,
    D: Fn(DateTerms, Double) -> Double,
    A: Fn(Double, Double) -> Double,
>(entry: CometEntry, line: Seq<char>, number: F, date: D, axis: A)
    requires
        refresh::is_comet_parse_of(Some(entry), line, number, date, axis),
    ensures
        holds(number, line, 30, 39, Some(entry.elements.q)),
        holds(number, line, 40, 49, Some(entry.elements.e)),
        holds(number, line, 50, 59, Some(entry.elements.peri)),
        holds(number, line, 60, 69, Some(entry.elements.node)),
        holds(number, line, 70, 79, Some(entry.elements.incl)),
        holds(number, line, 90, 95, entry.h),
        holds(number, line, 96, 100, entry.g),
        double::lt(double::of_integer(0), entry.elements.q),
        double::le(double::of_integer(0), entry.elements.e),
        double::lt(entry.elements.e, double::of_integer(1)) ==> axis.ensures(
            (entry.elements.q, entry.elements.e),
            entry.elements.a,
        ),
        !double::lt(entry.elements.e, double::of_integer(1)) ==> entry.elements.a
            == double::of_integer(0),
        entry.elements.mean_anomaly == double::of_integer(0),
        encode_utf8(line).len() >= 100,
{
    double_laws::lemma_named_numbers();
}

/// `jd` is the date that the bytes 14 to 29 of a line write: the year, the month and the day
/// with its fraction.
pub open spec fn is_written_date<
    F: Fn(&str) -> Option<Double>,
    D: Fn(DateTerms, Double) -> Double,
>(
    number: F,
    line: Seq<char>,
    date: D,
    jd: Double,
    year: Double,
    month: Double,
    day: Double,
    terms: DateTerms,
) -> bool {
    &&& holds(number, line, 14, 18, Some(year))
    &&& holds(number, line, 19, 21, Some(month))
    &&& holds(number, line, 22, 29, Some(day))
    &&& calendar::are_terms(terms, double::truncated(year), double::truncated(month))
    &&& date.ensures((terms, day), jd)
}

/// A comet passes its perihelion at the date in its line.
pub proof fn law_comets_pass_perihelion_at_the_written_date<
    F: Fn(&str) -> Option<Double>,
    D: Fn(DateTerms, Double) -> Double,
    A: Fn(Double, Double) -> Double,
>(entry: CometEntry, line: Seq<char>, number: F, date: D, axis: A)
    requires
        refresh::is_comet_parse_of(Some(entry), line, number, date, axis),
    ensures
        exists|year: Double, month: Double, day: Double, terms: DateTerms| #[trigger]
            is_written_date(number, line, date, entry.elements.tp, year, month, day, terms),
{
    let n = choose|n: CometNumbers| #[trigger]
        comets::line_reads(number, line, n) && comets::is_entry_of(entry, line, n, date, axis);
    let year = double::truncated(n.year->0);
    let month = double::truncated(n.month->0);
    let terms = choose|terms: DateTerms|
        #![trigger calendar::are_terms(terms, year, month)]
        calendar::are_terms(terms, year, month) && date.ensures(
            (terms, n.day->0),
            entry.elements.tp,
        );
    assert(is_written_date(
        number,
        line,
        date,
        entry.elements.tp,
        n.year->0,
        n.month->0,
        n.day->0,
        terms,
    ));
}

/// `jd` is the date of a stamp of eight digits: four of the year, two of the month, and two of
/// the day.
pub open spec fn is_stamped_date<
    F: Fn(&str) -> Option<Double>,
    D: Fn(DateTerms, Double) -> Double,
>(number: F, stamp: Seq<char>, date: D, jd: Double, day: Double, terms: DateTerms) -> bool {
    &&& exists|s: &str| s@ == stamp.subrange(6, 8) && #[trigger] number.ensures((s,), Some(day))
    &&& calendar::are_terms(
        terms,
        text::digits_value(stamp.subrange(0, 4)) as int,
        text::digits_value(stamp.subrange(4, 6)) as int,
    )
    &&& date.ensures((terms, day), jd)
}

proof fn lemma_part(s: Seq<char>, from: int, to: int)
    requires
        is_ascii_chars(s),
        0 <= from <= to <= s.len(),
    ensures
        comets::part(s, from, to) == s.subrange(from, to),
{
    is_ascii_chars_encode_utf8(s);
    let piece = s.subrange(from, to);
    is_ascii_chars_encode_utf8(piece);
    assert(encode_utf8(piece) =~= encode_utf8(s).subrange(from, to));
    encode_utf8_decode_utf8(piece);
}

/// The elements of a comet are those of the day that is stamped in its line, and of the day of
/// its perihelion where no stamp is there.
pub proof fn law_comets_are_of_the_stamped_day<
    F: Fn(&str) -> Option<Double>,
    D: Fn(DateTerms, Double) -> Double,
    A: Fn(Double, Double) -> Double,
>(entry: CometEntry, line: Seq<char>, number: F, date: D, axis: A)
    requires
        refresh::is_comet_parse_of(Some(entry), line, number, date, axis),
    ensures
        match text::column_text(line, 81, 89) {
            Some(t) => {
                &&& encode_utf8(t).len() != 8 ==> entry.elements.epoch_jd == entry.elements.tp
                &&& t.len() == 8 && text::all_digits(t) ==> exists|day: Double, terms: DateTerms|
                    #[trigger] is_stamped_date(number, t, date, entry.elements.epoch_jd, day, terms)
            },
            None => entry.elements.epoch_jd == entry.elements.tp,
        },
{
    let n = choose|n: CometNumbers| #[trigger]
        comets::line_reads(number, line, n) && comets::is_entry_of(entry, line, n, date, axis);
    assert(comets::open_column(line, 81, 89) == text::column_text(line, 81, 89));
    if text::column_text(line, 81, 89) is Some {
        let t = text::column_text(line, 81, 89)->0;
        if t.len() == 8 && text::all_digits(t) {
            assert(is_ascii_chars(t)) by {
                assert forall|i: int|
                    0 <= i < t.len() implies 0 <= #[trigger] t[i] as u32 <= 127 by {
                    assert(text::is_digit(t[i]));
                }
            }
            is_ascii_chars_encode_utf8(t);
            encode_utf8_valid_utf8(t);
            let b = encode_utf8(t);
            is_char_boundary_iff_not_is_continuation_byte(b, 4);
            is_char_boundary_iff_not_is_continuation_byte(b, 6);
            lemma_part(t, 0, 4);
            lemma_part(t, 4, 6);
            lemma_part(t, 6, 8);
            let y = t.subrange(0, 4);
            let m = t.subrange(4, 6);
            assert(y[0] == t[0] && m[0] == t[4]);
            assert(text::is_digit(t[0]) && text::is_digit(t[4]));
            assert forall|i: int| 0 <= i < 4 implies text::is_digit(#[trigger] y[i]) by {
                assert(y[i] == t[i]);
            }
            assert forall|i: int| 0 <= i < 2 implies text::is_digit(#[trigger] m[i]) by {
                assert(m[i] == t[4 + i]);
            }
            let year = text::digits_value(y) as int;
            let month = text::digits_value(m) as int;
            assert(comets::signed(y) == Some(year));
            assert(comets::signed(m) == Some(month));
            let terms = choose|terms: DateTerms|
                #![trigger calendar::are_terms(terms, year, month)]
                calendar::are_terms(terms, year, month) && date.ensures(
                    (terms, n.stamp_day->0),
                    entry.elements.epoch_jd,
                );
            assert(is_stamped_date(
                number,
                t,
                date,
                entry.elements.epoch_jd,
                n.stamp_day->0,
                terms,
            ));
        }
    }
}

/// A line is a comet exactly where it is long enough and not blank, has the date of its
/// perihelion, a distance above zero and an eccentricity from zero on, the three angles, a
/// name, and where it has a stamp, one that is a date.
pub proof fn law_which_lines_are_comets(line: Seq<char>, n: CometNumbers)
    ensures
        comets::is_record(line, n) <==> {
            &&& encode_utf8(line).len() >= 100
            &&& text::trimmed(line).len() > 0
            &&& n.year is Some && n.month is Some && n.day is Some
            &&& n.q matches Some(q) && double::lt(double::of_integer(0), q) && double::lt(
                q,
                Double { bits: 0x7ff0_0000_0000_0000 },
            )
            &&& n.e matches Some(e) && double::le(double::of_integer(0), e) && double::lt(
                e,
                Double { bits: 0x7ff0_0000_0000_0000 },
            )
            &&& n.incl is Some && n.node is Some && n.peri is Some
            &&& comets::line_key(line) is Some
            &&& comets::stamp(line) matches Some(t) ==> {
                &&& comets::signed(comets::part(t, 0, 4)) is Some
                &&& comets::signed(comets::part(t, 4, 6)) is Some
                &&& n.stamp_day is Some
            }
        },
{
    double_laws::lemma_named_numbers();
}

/// Taking out spaces takes out nothing else, and keeps the order of the rest.
pub proof fn law_spaces_are_taken_out(s: Seq<char>)
    ensures
        comets::without_spaces(s) == s.filter(|c: char| c != ' '),
    decreases s.len(),
{
    reveal(Seq::filter);
    if s.len() > 0 {
        law_spaces_are_taken_out(s.drop_last());
    }
}

proof fn lemma_first_index(s: Seq<char>, c: char, from: int)
    requires
        0 <= from <= s.len(),
    ensures
        from <= designation::first_index(s, c, from) <= s.len(),
        designation::first_index(s, c, from) < s.len() ==> s[designation::first_index(s, c, from)]
            == c,
        forall|k: int| from <= k < designation::first_index(s, c, from) ==> #[trigger] s[k] != c,
    decreases s.len() - from,
{
    if from < s.len() && s[from] != c {
        lemma_first_index(s, c, from + 1);
    }
}

/// A numbered comet goes by its number and kind, whatever its name and what stands behind it:
/// from a digit on, up to the slash.
pub proof fn law_numbered_comets_go_by_their_number(number: Seq<char>, name: Seq<char>)
    requires
        number.len() > 0,
        text::is_digit(number[0]),
        !number.contains('/'),
        !number.contains('('),
    ensures
        comets::comet_key(number + seq!['/'] + name) == Some(number),
{
    let all = number + seq!['/'] + name;
    lemma_first_index(all, '(', 0);
    let open = designation::first_index(all, '(', 0);
    let n = number.len() as int;
    assert(all[n] == '/');
    if open < n {
        assert(number[open] == '(');
    }
    let before = all.take(open);
    text_laws::law_trimming_takes_off_white_space_alone(before);
    let (i, j) = choose|i: int, j: int|
        {
            &&& 0 <= i <= j <= before.len()
            &&& text::trimmed(before) == #[trigger] before.subrange(i, j)
            &&& forall|k: int| 0 <= k < i || j <= k < before.len() ==> text::is_whitespace(
                #[trigger] before[k],
            )
            &&& i < j ==> !text::is_whitespace(before[i]) && !text::is_whitespace(before[j - 1])
        };
    assert(before[0] == number[0]);
    assert(before[n] == '/');
    assert(i == 0);
    assert(j > n);
    let d = text::trimmed(before);
    assert(d[n] == '/');
    lemma_first_index(d, '/', 0);
    let slash = designation::first_index(d, '/', 0);
    if slash < n {
        assert(number[slash] == '/');
    }
    if slash > n {
        assert(d[n] != '/');
    }
    assert(d[0] == number[0]);
    assert(d.take(n) =~= number);
}

/// Any other comet goes by its whole designation without its spaces, up to the parenthesis
/// that its name stands in.
pub proof fn law_other_comets_go_by_their_designation(designation: Seq<char>, name: Seq<char>)
    requires
        designation.len() > 0,
        !text::is_digit(designation[0]),
        !text::is_whitespace(designation[0]),
        !text::is_whitespace(designation.last()),
        !designation.contains('('),
    ensures
        comets::comet_key(designation) == Some(designation.filter(|c: char| c != ' ')),
        comets::comet_key(designation + seq![' ', '('] + name) == Some(
            designation.filter(|c: char| c != ' '),
        ),
{
    law_spaces_are_taken_out(designation);
    let n = designation.len() as int;
    lemma_first_index(designation, '(', 0);
    let k = designation::first_index(designation, '(', 0);
    if k < n {
        assert(designation[k] == '(');
    }
    assert(designation.take(n) =~= designation);
    lemma_trimmed(designation, designation);
    let all = designation + seq![' ', '('] + name;
    lemma_first_index(all, '(', 0);
    let open = designation::first_index(all, '(', 0);
    assert(all[n + 1] == '(');
    assert(all[n] == ' ');
    if open < n {
        assert(designation[open] == '(');
    }
    assert(open == n + 1);
    let before = all.take(n + 1);
    assert(before =~= designation + seq![' ']);
    lemma_trimmed(before, designation);
}

proof fn lemma_trimmed(s: Seq<char>, t: Seq<char>)
    requires
        t.len() > 0,
        !text::is_whitespace(t[0]),
        !text::is_whitespace(t.last()),
        s == t || s == t + seq![' '],
    ensures
        text::trimmed(s) == t,
{
    assert(s[0] == t[0]);
    assert(text::trimmed_start(s) == s);
    if s != t {
        assert(s.last() == ' ');
        assert(s.drop_last() =~= t);
        reveal_with_fuel(text::trimmed_end, 3);
    }
}

/// Every minor planet has its elements from the columns of its line: the magnitude, the slope,
/// the mean anomaly, the argument of perihelion, the node, the inclination, the eccentricity
/// and the semimajor axis; its perihelion is the one that is derived from them.
pub proof fn law_orbits_are_read_from_their_columns<
    F: Fn(&str) -> Option<Double>,
    P: Fn(OrbitalElements) -> Perihelion,
>(entry: MpcorbEntry, line: Seq<char>, number: F, perihelion: P)
    requires
        refresh::is_parse_of(Some(entry), line, number, perihelion),
    ensures
        holds(number, line, 8, 13, entry.h),
        holds(number, line, 14, 19, entry.g),
        holds(number, line, 26, 35, Some(entry.elements.mean_anomaly)),
        holds(number, line, 37, 46, Some(entry.elements.peri)),
        holds(number, line, 48, 57, Some(entry.elements.node)),
        holds(number, line, 59, 68, Some(entry.elements.incl)),
        holds(number, line, 70, 79, Some(entry.elements.e)),
        holds(number, line, 92, 103, Some(entry.elements.a)),
        double::lt(double::of_integer(0), entry.elements.a),
        double::le(double::of_integer(0), entry.elements.e),
        double::lt(entry.elements.e, double::of_integer(1)),
        perihelion.ensures(
            (
                (OrbitalElements {
                    q: double::of_integer(0),
                    tp: double::of_integer(0),
                    ..entry.elements
                }),
            ),
            (Perihelion { q: entry.elements.q, tp: entry.elements.tp }),
        ),
{
    double_laws::lemma_named_numbers();
    let n = choose|n: LineNumbers| #[trigger]
        mpcorb::line_reads(number, line, n) && mpcorb::is_entry_of(entry, line, n, perihelion);
    let raw = mpcorb::raw_elements(entry.elements.epoch_jd, n);
    let p = choose|p: Perihelion|
        perihelion.ensures((raw,), p) && entry.elements == #[trigger] sso_geometry::at_perihelion(
            raw,
            p,
        );
    assert(raw == OrbitalElements {
        q: double::of_integer(0),
        tp: double::of_integer(0),
        ..entry.elements
    });
    assert(p == Perihelion { q: entry.elements.q, tp: entry.elements.tp });
}

/// A minor planet goes by the designation that its first seven bytes pack, as of the epoch that
/// the bytes 20 to 25 pack.
pub proof fn law_orbits_are_named_and_dated_by_their_columns<
    F: Fn(&str) -> Option<Double>,
    P: Fn(OrbitalElements) -> Perihelion,
>(entry: MpcorbEntry, line: Seq<char>, number: F, perihelion: P)
    requires
        refresh::is_parse_of(Some(entry), line, number, perihelion),
    ensures
        encode_utf8(line).len() >= 103,
        text::column_text(line, 0, 7) matches Some(packed) && designation::unpacked(packed) == Some(
            entry.designation@,
        ),
        text::column_text(line, 20, 25) matches Some(packed) && mpcorb::packed_epoch(
            packed,
        ) matches Some(twice) && twice > 0 && double::is_half_of(
            entry.elements.epoch_jd,
            twice as nat,
        ),
{
}

/// A line is an orbit exactly where it is long enough, has a designation and an epoch, all six
/// elements, an axis above zero, and an eccentricity from zero on and below one.
pub proof fn law_which_lines_are_orbits(line: Seq<char>, n: LineNumbers)
    ensures
        mpcorb::is_record(line, n) <==> {
            &&& encode_utf8(line).len() >= 103
            &&& text::column_text(line, 0, 7) matches Some(packed)
            &&& designation::unpacked(packed) is Some
            &&& text::column_text(line, 20, 25) matches Some(epoch)
            &&& mpcorb::packed_epoch(epoch) is Some
            &&& n.mean_anomaly is Some && n.peri is Some && n.node is Some && n.incl is Some
            &&& n.a matches Some(a) && double::lt(double::of_integer(0), a)
            &&& n.e matches Some(e) && double::le(double::of_integer(0), e) && double::lt(
                e,
                double::of_integer(1),
            )
        },
{
    double_laws::lemma_named_numbers();
}

/// An epoch is packed as the century by its letter, the last two digits of the year, and the
/// month and the day as one character each; it reads as that day.
pub proof fn law_packed_epochs_read_as_their_day(
    century: char,
    tens: char,
    ones: char,
    month: char,
    day: char,
)
    requires
        century == 'I' || century == 'J' || century == 'K',
        text::is_digit(tens) && text::is_digit(ones),
        designation::packed_number(month) is Some && designation::packed_number(day) is Some,
        1 <= designation::packed_number(month)->0 <= 12,
        1 <= designation::packed_number(day)->0 <= 31,
    ensures
        mpcorb::packed_epoch(seq![century, tens, ones, month, day]) == Some(
            calendar::half_days(
                1800 + 100 * (century as int - 'I' as int) + 10 * (tens as int - '0' as int) + (
                ones as int - '0' as int),
                designation::packed_number(month)->0 as int,
                designation::packed_number(day)->0 as int,
            ),
        ),
{
}

/// A packed character counts from 0 to 61: the digits, then the capital letters, then the
/// small ones.
pub proof fn law_packed_characters_count_on(c: char)
    ensures
        '0' <= c <= '9' ==> designation::packed_number(c) == Some((c as int - 48) as nat),
        'A' <= c <= 'Z' ==> designation::packed_number(c) == Some((c as int - 55) as nat),
        'a' <= c <= 'z' ==> designation::packed_number(c) == Some((c as int - 61) as nat),
        designation::packed_number(c) matches Some(n) ==> n < 62,
        designation::packed_number(c) is Some <==> ('0' <= c <= '9' || 'A' <= c <= 'Z' || 'a' <= c
            <= 'z'),
{
}

/// A comet is named in the last column of its line, from byte 102 on.
pub proof fn law_comets_are_named_in_the_last_column<
    F: Fn(&str) -> Option<Double>,
    D: Fn(DateTerms, Double) -> Double,
    A: Fn(Double, Double) -> Double,
>(entry: CometEntry, line: Seq<char>, number: F, date: D, axis: A)
    requires
        refresh::is_comet_parse_of(Some(entry), line, number, date, axis),
    ensures
        text::column_text(line, 102, encode_utf8(line).len() as int) matches Some(name)
            && comets::comet_key(name) == Some(entry.designation@),
{
}

/// `value` is what `number` makes of the text `t`.
pub open spec fn reads_as<F: Fn(&str) -> Option<Double>>(
    number: F,
    t: Seq<char>,
    value: Double,
) -> bool {
    exists|s: &str| s@ == t && #[trigger] number.ensures((s,), Some(value))
}

proof fn lemma_padded(s: Seq<char>, t: Seq<char>, k: int)
    requires
        0 <= k <= 3,
        s.len() == k + t.len(),
        t.len() > 0,
        !text::is_whitespace(t[0]),
        !text::is_whitespace(t.last()),
        forall|i: int| 0 <= i < k ==> #[trigger] s[i] == ' ',
        s.skip(k) == t,
    ensures
        text::trimmed(s) == t,
    decreases k,
{
    if k == 0 {
        assert(s.skip(0) =~= s);
    } else {
        assert(s[0] == ' ');
        let rest = s.drop_first();
        assert(rest.skip(k - 1) =~= s.skip(k));
        assert forall|i: int| 0 <= i < k - 1 implies #[trigger] rest[i] == ' ' by {
            assert(rest[i] == s[i + 1]);
        }
        lemma_padded(rest, t, k - 1);
    }
}

/// Halley's comet as it is published: it goes by `1P`, has its perihelion at 112.1899 degrees
/// from a node at 59.2896 degrees, an inclination of 162.1880 degrees, a perihelion distance of
/// 0.571098 and an eccentricity of 0.968021.
#[verifier::rlimit(60)]
pub proof fn law_halley_reads_as_published<
    F: Fn(&str) -> Option<Double>,
    D: Fn(DateTerms, Double) -> Double,
    A: Fn(Double, Double) -> Double,
>(entry: CometEntry, number: F, date: D, axis: A)
    requires
        refresh::is_comet_parse_of(
            Some(entry),
            "0001P         2061 08  2.8739  0.571098  0.968021  112.1899   59.2896  162.1880  20260905   5.5  3.2  1P/Halley"@,
            number,
            date,
            axis,
        ),
    ensures
        entry.designation@ == "1P"@,
        reads_as(number, "0.571098"@, entry.elements.q),
        reads_as(number, "0.968021"@, entry.elements.e),
        reads_as(number, "112.1899"@, entry.elements.peri),
        reads_as(number, "59.2896"@, entry.elements.node),
        reads_as(number, "162.1880"@, entry.elements.incl),
{
    let line = "0001P         2061 08  2.8739  0.571098  0.968021  112.1899   59.2896  162.1880  20260905   5.5  3.2  1P/Halley"@;
    reveal_strlit(
        "0001P         2061 08  2.8739  0.571098  0.968021  112.1899   59.2896  162.1880  20260905   5.5  3.2  1P/Halley",
    );
    reveal_strlit("0.571098");
    reveal_strlit("0.968021");
    reveal_strlit("112.1899");
    reveal_strlit("59.2896");
    reveal_strlit("162.1880");
    law_comets_are_read_from_their_columns(entry, line, number, date, axis);
    assert(is_ascii_chars(line));
    law_columns_are_read_from_their_characters(number, line, 30, 39, Some(entry.elements.q));
    law_columns_are_read_from_their_characters(number, line, 40, 49, Some(entry.elements.e));
    law_columns_are_read_from_their_characters(number, line, 50, 59, Some(entry.elements.peri));
    law_columns_are_read_from_their_characters(number, line, 60, 69, Some(entry.elements.node));
    law_columns_are_read_from_their_characters(number, line, 70, 79, Some(entry.elements.incl));
    assert(line.subrange(30, 39).skip(1) =~= "0.571098"@);
    lemma_padded(line.subrange(30, 39), "0.571098"@, 1);
    assert(line.subrange(40, 49).skip(1) =~= "0.968021"@);
    lemma_padded(line.subrange(40, 49), "0.968021"@, 1);
    assert(line.subrange(50, 59).skip(1) =~= "112.1899"@);
    lemma_padded(line.subrange(50, 59), "112.1899"@, 1);
    assert(line.subrange(60, 69).skip(2) =~= "59.2896"@);
    lemma_padded(line.subrange(60, 69), "59.2896"@, 2);
    assert(line.subrange(70, 79).skip(1) =~= "162.1880"@);
    lemma_padded(line.subrange(70, 79), "162.1880"@, 1);
    reveal_strlit("1P");
    reveal_strlit("1P/Halley");
    reveal_strlit("Halley");
    law_comets_are_named_in_the_last_column(entry, line, number, date, axis);
    let end = line.len() as int;
    text_laws::law_columns_are_characters_of_the_line(line, 102, end);
    assert(line.subrange(102, end).skip(0) =~= "1P/Halley"@);
    lemma_padded(line.subrange(102, end), "1P/Halley"@, 0);
    assert("1P/Halley"@ =~= "1P"@ + seq!['/'] + "Halley"@);
    law_numbered_comets_go_by_their_number("1P"@, "Halley"@);
}

/// A line looks like a record exactly where it has at least 103 bytes and a digit among them.
pub proof fn law_what_looks_like_a_record(line: Seq<char>)
    ensures
        mpcorb::has_record_shape(line) <==> encode_utf8(line).len() >= 103 && exists|i: int|
            0 <= i < line.len() && '0' <= #[trigger] line[i] <= '9',
{
    if exists|i: int| 0 <= i < line.len() && '0' <= #[trigger] line[i] <= '9' {
        let i = choose|i: int| 0 <= i < line.len() && '0' <= #[trigger] line[i] <= '9';
        assert(text::is_digit(line[i]));
    }
}

/// A whole number is read as its digits say, with an optional sign in front; a sign alone is no
/// number, and neither is anything with another character in it.
pub proof fn law_whole_numbers_may_have_a_sign(digits: Seq<char>, s: Seq<char>, i: int)
    requires
        digits.len() > 0,
        text::all_digits(digits),
    ensures
        comets::signed(digits) == Some(text::digits_value(digits) as int),
        comets::signed(seq!['+'] + digits) == Some(text::digits_value(digits) as int),
        comets::signed(seq!['-'] + digits) == Some(-(text::digits_value(digits) as int)),
        comets::signed(seq!['-']) is None && comets::signed(seq!['+']) is None,
        comets::signed(Seq::empty()) is None,
        0 < i < s.len() && !text::is_digit(s[i]) ==> comets::signed(s) is None,
        s.len() > 0 && !text::is_digit(s[0]) && s[0] != '+' && s[0] != '-' ==> comets::signed(
            s,
        ) is None,
{
    assert(text::is_digit(digits[0]));
    let p = seq!['+'] + digits;
    let m = seq!['-'] + digits;
    assert(p.skip(1) =~= digits);
    assert(m.skip(1) =~= digits);
    assert(p[0] == '+' && m[0] == '-');
    assert(seq!['+'].skip(1).len() == 0);
    if 0 < i < s.len() && !text::is_digit(s[i]) {
        assert(s.skip(1)[i - 1] == s[i]);
    }
}

} // verus!

//! Designations of minor planets and comets: the packed forms of the Minor Planet
//! Center, and the forms that ZTF alerts carry.

use crate::utils::text;
use crate::utils::text::{
    ascii_digit, ascii_upper, chars, decimal_text, digits_between, text_of, trim,
};
use vstd::prelude::*;
use vstd::string::*;
use vstd::utf8::*;

verus! {

/// Order letters within a half-month, omitting I.
pub const ORDER_LETTERS: &'static str = "ABCDEFGHJKLMNOPQRSTUVWXYZ";

/// The old two-character cycle tops out at 2026 CZ619; the extended scheme
/// resumes at the next object.
pub const EXTENDED_FIRST_ORDINAL: u64 = 15_501;

/// The text that an optional text holds.
pub open spec fn text_view(r: Option<String>) -> Option<Seq<char>> {
    match r {
        Some(t) => Some(t@),
        None => None,
    }
}

/// Value of a packed character: `0-9`, then `A-Z` = 10-35, then `a-z` = 36-61.
pub open spec fn packed_number(c: char) -> Option<nat> {
    if text::is_digit(c) {
        Some(text::digit_value(c))
    } else if text::is_upper(c) {
        Some((c as int - 'A' as int + 10) as nat)
    } else if 'a' <= c && c <= 'z' {
        Some((c as int - 'a' as int + 36) as nat)
    } else {
        None
    }
}

/// The number that packed characters write in base 62.
pub open spec fn base62(s: Seq<char>) -> Option<nat>
    decreases s.len(),
{
    if s.len() == 0 {
        Some(0)
    } else {
        match (base62(s.drop_last()), packed_number(s.last())) {
            (Some(high), Some(low)) => Some(high * 62 + low),
            _ => None,
        }
    }
}

/// The number that a text writes in decimal, behind an optional plus sign.
pub open spec fn unsigned(s: Seq<char>) -> Option<nat> {
    let digits = if s.len() > 0 && s[0] == '+' {
        s.skip(1)
    } else {
        s
    };
    if digits.len() > 0 && text::all_digits(digits) {
        Some(text::digits_value(digits))
    } else {
        None
    }
}

/// The century that a packed letter stands for.
pub open spec fn century(c: char) -> Option<nat> {
    if c == 'I' {
        Some(18)
    } else if c == 'J' {
        Some(19)
    } else if c == 'K' {
        Some(20)
    } else {
        None
    }
}

/// The year that a century letter and two digits stand for.
pub open spec fn packed_year(s: Seq<char>) -> Option<nat> {
    match century(s[0]) {
        Some(hundreds) => if text::is_digit(s[1]) && text::is_digit(s[2]) {
            Some(hundreds * 100 + text::digit_value(s[1]) * 10 + text::digit_value(s[2]))
        } else {
            None
        },
        None => None,
    }
}

/// A provisional designation as it is written out: year, half-month letter, order
/// letter, and the cycle count from 1 on.
pub open spec fn provisional(year: nat, half_month: char, order: char, cycle: nat) -> Seq<char> {
    let head = text::decimal(year) + seq![' ', half_month, order];
    if cycle == 0 {
        head
    } else {
        head + text::decimal(cycle)
    }
}

/// The letter that the `index`-th object of a half-month has, counted from 0.
pub open spec fn order_letter(index: nat) -> char {
    ORDER_LETTERS@[(index % 25) as int]
}

/// The name of a Palomar-Leiden or Trojan survey by the first three packed
/// characters.
pub open spec fn survey_name(prefix: Seq<char>) -> Option<Seq<char>> {
    if prefix == "PLS"@ {
        Some("P-L"@)
    } else if prefix == "T1S"@ {
        Some("T-1"@)
    } else if prefix == "T2S"@ {
        Some("T-2"@)
    } else if prefix == "T3S"@ {
        Some("T-3"@)
    } else {
        None
    }
}

/// Very high numbers: `~` and four base-62 characters.
pub open spec fn unpacked_high_number(s: Seq<char>) -> Option<Seq<char>> {
    match base62(s.skip(1)) {
        Some(n) => Some(text::decimal(n + 620_000)),
        None => None,
    }
}

/// A number whose leading two digits are one packed character.
pub open spec fn unpacked_prefixed_number(s: Seq<char>) -> Option<Seq<char>> {
    match (packed_number(s[0]), unsigned(s.skip(1))) {
        (Some(high), Some(low)) => Some(text::decimal(high * 10_000 + low)),
        _ => None,
    }
}

/// Extended provisional: `_`, year, half-month and four base-62 digits that count on
/// from the first object that the two-character cycle cannot reach.
pub open spec fn unpacked_extended(s: Seq<char>) -> Option<Seq<char>> {
    match (packed_number(s[1]), base62(s.subrange(3, 7))) {
        (Some(year), Some(offset)) => {
            let index = (EXTENDED_FIRST_ORDINAL + offset - 1) as nat;
            Some(provisional(2000 + year, s[2], order_letter(index), index / 25))
        },
        _ => None,
    }
}

/// Survey designation: the number without its leading zeros, and the survey's name.
pub open spec fn unpacked_survey(s: Seq<char>, name: Seq<char>) -> Option<Seq<char>> {
    let number = text::without_leading_zeros(s.subrange(3, 7));
    if number.len() > 0 && text::all_digits(number) {
        Some(number + seq![' '] + name)
    } else {
        None
    }
}

/// Provisional: century, year, half-month letter, cycle count, order letter.
pub open spec fn unpacked_provisional(s: Seq<char>) -> Option<Seq<char>> {
    match (packed_year(s), packed_number(s[4])) {
        (Some(year), Some(tens)) => if text::is_digit(s[5]) {
            Some(provisional(year, s[3], s[6], tens * 10 + text::digit_value(s[5])))
        } else {
            None
        },
        _ => None,
    }
}

/// The designation that the packed form `s` stands for.
pub open spec fn unpacked(s: Seq<char>) -> Option<Seq<char>> {
    if s.len() == 5 {
        if s[0] == '~' {
            unpacked_high_number(s)
        } else if text::all_digits(s) {
            Some(text::without_leading_zeros(s))
        } else {
            unpacked_prefixed_number(s)
        }
    } else if s.len() == 7 {
        if s[0] == '_' {
            unpacked_extended(s)
        } else {
            match survey_name(s.take(3)) {
                Some(name) => unpacked_survey(s, name),
                None => unpacked_provisional(s),
            }
        }
    } else {
        None
    }
}

/// Seven packed characters are read by byte position from the third on, so these
/// positions must not fall inside a character.
pub open spec fn has_byte_columns(s: Seq<char>) -> bool {
    s.len() == 7 && s[0] != '_' ==> {
        &&& is_char_boundary(encode_utf8(s), 3)
        &&& survey_name(s.take(3)) is Some ==> is_char_boundary(encode_utf8(s), 7)
    }
}

/// Value of a packed character: `0-9`, then `A-Z` = 10-35, then `a-z` = 36-61.
pub fn packed_value(c: char) -> (r: Option<u32>)
    ensures
        match r {
            Some(v) => packed_number(c) == Some(v as nat) && v < 62,
            None => packed_number(c) is None,
        },
{
    if ascii_digit(c) {
        Some(c as u32 - 48)
    } else if ascii_upper(c) {
        Some(c as u32 - 65 + 10)
    } else if 'a' <= c && c <= 'z' {
        Some(c as u32 - 97 + 36)
    } else {
        None
    }
}

/// The number that the characters `start..end` write in base 62.
fn base62_between(c: &Vec<char>, start: usize, end: usize) -> (r: Option<u64>)
    requires
        start <= end <= c.len(),
        end - start == 4,
    ensures
        match r {
            Some(v) => base62(c@.subrange(start as int, end as int)) == Some(v as nat) && v
                < 14_776_336,
            None => base62(c@.subrange(start as int, end as int)) is None,
        },
{
    let mut n: u64 = 0;
    let mut bound: Ghost<int> = Ghost(1);
    let mut i: usize = start;
    while i < end
        invariant
            start <= i <= end <= c.len(),
            end - start == 4,
            base62(c@.subrange(start as int, i as int)) == Some(n as nat),
            n < bound@ <= 14_776_336,
            i - start == 0 ==> bound@ == 1,
            i - start == 1 ==> bound@ == 62,
            i - start == 2 ==> bound@ == 3844,
            i - start == 3 ==> bound@ == 238_328,
            i - start == 4 ==> bound@ == 14_776_336,
        decreases end - i,
    {
        let ghost upto = c@.subrange(start as int, i + 1);
        assert(upto.drop_last() == c@.subrange(start as int, i as int));
        match packed_value(c[i]) {
            Some(v) => {
                n = n * 62 + v as u64;
                bound = Ghost(bound@ * 62);
            },
            None => {
                proof {
                    lemma_base62_prefix(c@.subrange(start as int, end as int), i + 1 - start);
                    assert(c@.subrange(start as int, end as int).take(i + 1 - start) == upto);
                }
                return None;
            },
        }
        i = i + 1;
    }
    Some(n)
}

/// A text is a base-62 number only where each of its prefixes is.
proof fn lemma_base62_prefix(s: Seq<char>, k: int)
    requires
        0 <= k <= s.len(),
    ensures
        base62(s) is Some ==> base62(s.take(k)) is Some,
    decreases s.len(),
{
    if k < s.len() {
        lemma_base62_prefix(s.drop_last(), k);
        assert(s.drop_last().take(k) == s.take(k));
    } else {
        assert(s.take(k) == s);
    }
}

/// The number that the characters `start..end` write in decimal.
pub fn digits_number(c: &Vec<char>, start: usize, end: usize) -> (r: u64)
    requires
        start <= end <= c.len(),
        end - start <= 4,
        text::all_digits(c@.subrange(start as int, end as int)),
    ensures
        r == text::digits_value(c@.subrange(start as int, end as int)),
        r < 10_000,
    decreases end - start,
{
    if start == end {
        0
    } else {
        let ghost s = c@.subrange(start as int, end as int);
        proof {
            assert(s.drop_last() == c@.subrange(start as int, end - 1));
            assert(text::is_digit(s[s.len() - 1]));
            assert forall|i: int| 0 <= i < s.len() - 1 implies text::is_digit(
                #[trigger] s.drop_last()[i],
            ) by {
                assert(s.drop_last()[i] == s[i]);
            }
            lemma_digits_bound(s.drop_last());
        }
        let high: u64 = digits_number(c, start, end - 1);
        high * 10 + (c[end - 1] as u64 - 48)
    }
}

/// At most four digits write a number below ten thousand.
proof fn lemma_digits_bound(s: Seq<char>)
    requires
        text::all_digits(s),
    ensures
        s.len() <= 1 ==> text::digits_value(s) < 10,
        s.len() <= 2 ==> text::digits_value(s) < 100,
        s.len() <= 3 ==> text::digits_value(s) < 1_000,
        s.len() <= 4 ==> text::digits_value(s) < 10_000,
    decreases s.len(),
{
    if s.len() > 0 {
        assert(text::is_digit(s[s.len() - 1]));
        assert forall|i: int| 0 <= i < s.len() - 1 implies text::is_digit(
            #[trigger] s.drop_last()[i],
        ) by {
            assert(s.drop_last()[i] == s[i]);
        }
        lemma_digits_bound(s.drop_last());
    }
}

/// The index of the first character of `start..end` that is no zero.
fn skip_zeros(c: &Vec<char>, start: usize, end: usize) -> (r: usize)
    requires
        start <= end <= c.len(),
    ensures
        start <= r <= end,
        c@.subrange(r as int, end as int) == text::without_leading_zeros(
            c@.subrange(start as int, end as int),
        ),
{
    let mut i: usize = start;
    while i < end && c[i] == '0'
        invariant
            start <= i <= end <= c.len(),
            text::without_leading_zeros(c@.subrange(start as int, end as int))
                == text::without_leading_zeros(c@.subrange(i as int, end as int)),
        decreases end - i,
    {
        assert(c@.subrange(i as int, end as int).drop_first() == c@.subrange(i + 1, end as int));
        i = i + 1;
    }
    i
}

/// A provisional designation written out.
fn provisional_text(year: u64, half_month: char, order: char, cycle: u64) -> (r: String)
    ensures
        r@ == provisional(year as nat, half_month, order, cycle as nat),
{
    let mut out: String = decimal_text(year);
    out.push(' ');
    out.push(half_month);
    out.push(order);
    assert(out@ == text::decimal(year as nat) + seq![' ', half_month, order]);
    if cycle > 0 {
        let count = decimal_text(cycle);
        out.append(count.as_str());
    }
    out
}

fn unpack_prefixed_number(c: &Vec<char>) -> (r: Option<String>)
    requires
        c.len() == 5,
    ensures
        text_view(r) == unpacked_prefixed_number(c@),
{
    let high: u64 = match packed_value(c[0]) {
        Some(v) => v as u64,
        None => {
            return None;
        },
    };
    let from: usize = if c[1] == '+' {
        2
    } else {
        1
    };
    proof {
        assert(c@.skip(1) == c@.subrange(1, 5));
        assert(c@.skip(1).skip(1) == c@.subrange(2, 5));
    }
    if !digits_between(c, from, 5) {
        return None;
    }
    let low: u64 = digits_number(c, from, 5);
    Some(decimal_text(high * 10_000 + low))
}

fn unpack_extended(c: &Vec<char>) -> (r: Option<String>)
    requires
        c.len() == 7,
    ensures
        text_view(r) == unpacked_extended(c@),
{
    let year: u64 = match packed_value(c[1]) {
        Some(v) => 2000 + v as u64,
        None => {
            return None;
        },
    };
    let offset: u64 = match base62_between(c, 3, 7) {
        Some(v) => v,
        None => {
            return None;
        },
    };
    let index: u64 = EXTENDED_FIRST_ORDINAL + offset - 1;
    proof {
        reveal_strlit("ABCDEFGHJKLMNOPQRSTUVWXYZ");
    }
    let letter: char = ORDER_LETTERS.get_char((index % 25) as usize);
    Some(provisional_text(year, c[2], letter, index / 25))
}

/// The name of the survey that the first three characters stand for.
fn survey_of(c: &Vec<char>) -> (r: Option<&'static str>)
    requires
        c.len() == 7,
    ensures
        match r {
            Some(name) => survey_name(c@.take(3)) == Some(name@),
            None => survey_name(c@.take(3)) is None,
        },
{
    proof {
        reveal_strlit("PLS");
        reveal_strlit("T1S");
        reveal_strlit("T2S");
        reveal_strlit("T3S");
        let p = c@.take(3);
        assert(p[0] == c@[0] && p[1] == c@[1] && p[2] == c@[2]);
        assert("PLS"@[0] == 'P' && "PLS"@[1] == 'L' && "PLS"@[2] == 'S');
        if p[0] == 'P' && p[1] == 'L' && p[2] == 'S' {
            assert(p =~= "PLS"@);
        }
        assert("T1S"@[0] == 'T' && "T1S"@[1] == '1' && "T1S"@[2] == 'S');
        if p[0] == 'T' && p[1] == '1' && p[2] == 'S' {
            assert(p =~= "T1S"@);
        }
        assert("T2S"@[0] == 'T' && "T2S"@[1] == '2' && "T2S"@[2] == 'S');
        if p[0] == 'T' && p[1] == '2' && p[2] == 'S' {
            assert(p =~= "T2S"@);
        }
        assert("T3S"@[0] == 'T' && "T3S"@[1] == '3' && "T3S"@[2] == 'S');
        if p[0] == 'T' && p[1] == '3' && p[2] == 'S' {
            assert(p =~= "T3S"@);
        }
    }
    if c[0] == 'P' && c[1] == 'L' && c[2] == 'S' {
        Some("P-L")
    } else if c[0] == 'T' && c[1] == '1' && c[2] == 'S' {
        Some("T-1")
    } else if c[0] == 'T' && c[1] == '2' && c[2] == 'S' {
        Some("T-2")
    } else if c[0] == 'T' && c[1] == '3' && c[2] == 'S' {
        Some("T-3")
    } else {
        None
    }
}

fn unpack_survey(c: &Vec<char>, name: &str) -> (r: Option<String>)
    requires
        c.len() == 7,
    ensures
        text_view(r) == unpacked_survey(c@, name@),
{
    let from: usize = skip_zeros(c, 3, 7);
    if from < 7 && digits_between(c, from, 7) {
        let mut out: String = text_of(c, from, 7);
        out.push(' ');
        out.append(name);
        assert(out@ == c@.subrange(from as int, 7) + seq![' '] + name@);
        Some(out)
    } else {
        None
    }
}

/// The year that a century letter and two digits stand for.
pub fn unpack_year(c: &Vec<char>) -> (r: Option<u64>)
    requires
        c.len() >= 3,
    ensures
        match r {
            Some(y) => packed_year(c@) == Some(y as nat) && 1800 <= y < 2100,
            None => packed_year(c@) is None,
        },
{
    let hundreds: u64 = if c[0] == 'I' {
        18
    } else if c[0] == 'J' {
        19
    } else if c[0] == 'K' {
        20
    } else {
        return None;
    };
    if ascii_digit(c[1]) && ascii_digit(c[2]) {
        Some(hundreds * 100 + (c[1] as u64 - 48) * 10 + (c[2] as u64 - 48))
    } else {
        None
    }
}

fn unpack_provisional(c: &Vec<char>) -> (r: Option<String>)
    requires
        c.len() == 7,
    ensures
        text_view(r) == unpacked_provisional(c@),
{
    let year: u64 = match unpack_year(c) {
        Some(y) => y,
        None => {
            return None;
        },
    };
    let tens: u64 = match packed_value(c[4]) {
        Some(v) => v as u64,
        None => {
            return None;
        },
    };
    if !ascii_digit(c[5]) {
        return None;
    }
    let cycle: u64 = tens * 10 + (c[5] as u64 - 48);
    Some(provisional_text(year, c[3], c[6], cycle))
}

/// Packed designation to the unpacked form.
///
/// Numbered objects lose their zero padding (`"00001"` -> `"1"`); the
/// letter-prefixed form covers 100000 and above (`"u5784"` -> `"565784"`), and `~`
/// with four base-62 characters the numbers from 620000 on. Provisional
/// designations unpack to `"2014 WF524"` style, survey designations to
/// `"4847 P-L"`. Anything else has no unpacked form.
pub fn unpack_designation(packed: &str) -> (r: Option<String>)
    requires
        has_byte_columns(text::trimmed(packed@)),
    ensures
        text_view(r) == unpacked(text::trimmed(packed@)),
{
    let c = chars(trim(packed));
    if c.len() == 5 {
        assert(c@.subrange(0, 5) == c@);
        if c[0] == '~' {
            assert(c@.subrange(1, 5) == c@.skip(1));
            match base62_between(&c, 1, 5) {
                Some(n) => Some(decimal_text(n + 620_000)),
                None => None,
            }
        } else if digits_between(&c, 0, 5) {
            let from: usize = skip_zeros(&c, 0, 5);
            Some(text_of(&c, from, 5))
        } else {
            unpack_prefixed_number(&c)
        }
    } else if c.len() == 7 {
        if c[0] == '_' {
            unpack_extended(&c)
        } else {
            match survey_of(&c) {
                Some(name) => unpack_survey(&c, name),
                None => unpack_provisional(&c),
            }
        }
    } else {
        None
    }
}

/// A letter that ends the designation of a comet or of an interstellar object.
pub open spec fn is_orbit_type(c: char) -> bool {
    c == 'P' || c == 'C' || c == 'D' || c == 'X' || c == 'I'
}

/// The index of the first `c` at or after `from`; the length where there is none.
pub open spec fn first_index(s: Seq<char>, c: char, from: int) -> int
    decreases s.len() - from,
{
    if from >= s.len() {
        s.len() as int
    } else if s[from] == c {
        from
    } else {
        first_index(s, c, from + 1)
    }
}

/// A provisional designation without its space: a four-digit year, the half-month
/// and order letters, and an optional cycle count.
pub open spec fn is_compact_provisional(s: Seq<char>) -> bool {
    &&& s.len() >= 6
    &&& text::all_digits(s.take(4))
    &&& text::is_upper(s[4])
    &&& text::is_upper(s[5])
    &&& text::all_digits(s.skip(6))
}

/// The catalogue key that the trimmed `ssnamenr` `s` stands for.
pub open spec fn catalogue_key(s: Seq<char>) -> Option<Seq<char>> {
    if s.len() == 0 {
        None
    } else if s[0] == '(' {
        let close = first_index(s, ')', 1);
        let number = s.subrange(1, close);
        if close < s.len() && number.len() > 0 && text::all_digits(number) {
            Some(number)
        } else {
            None
        }
    } else if text::all_digits(s) || s.contains('/') {
        Some(s)
    } else if is_compact_provisional(s) {
        Some(s.take(4) + seq![' '] + s.skip(4))
    } else if is_orbit_type(s.last()) {
        Some(s)
    } else {
        None
    }
}

/// The catalogue key that an `ssnamenr` stands for.
pub open spec fn name_key(name: Seq<char>) -> Option<Seq<char>> {
    catalogue_key(text::trimmed(name))
}

/// The index of the first `wanted` at or after `from`.
pub fn find_char(c: &Vec<char>, wanted: char, from: usize) -> (r: usize)
    requires
        from <= c.len(),
    ensures
        r == first_index(c@, wanted, from as int),
        from <= r <= c.len(),
        r < c.len() ==> c@[r as int] == wanted,
        r == c.len() ==> forall|k: int| from <= k < c.len() ==> c@[k] != wanted,
{
    let mut i: usize = from;
    while i < c.len() && c[i] != wanted
        invariant
            from <= i <= c.len(),
            first_index(c@, wanted, from as int) == first_index(c@, wanted, i as int),
            forall|k: int| from <= k < i ==> c@[k] != wanted,
        decreases c.len() - i,
    {
        i = i + 1;
    }
    i
}

/// Rewrite a ZTF `ssnamenr` into the designation that the orbit catalogue is keyed by.
///
/// - `"9816"`: a permanent number, already the key.
/// - `"(100)Hekate"`, `"(57996)2002RV107"`: number and name run together. The
///   parenthesised number is the key.
/// - `"C/2026O1"`, `"73P-C"`: a comet, keyed exactly as the alert writes it.
/// - `"2015TW415"`: a provisional designation with the space removed. The catalogue
///   writes `"2015 TW415"`. Its order letter may be one that ends the name of a comet
///   (`"2014YC"`), so the shape of the whole decides before the last letter does.
///
/// Returns `None` for anything not resolvable to a key.
pub fn normalize_ztf_ssnamenr(ssnamenr: &str) -> (r: Option<String>)
    ensures
        text_view(r) == name_key(ssnamenr@),
{
    let c = chars(trim(ssnamenr));
    let n: usize = c.len();
    if n == 0 {
        return None;
    }
    if c[0] == '(' {
        let close: usize = find_char(&c, ')', 1);
        if close < n && close > 1 && digits_between(&c, 1, close) {
            return Some(text_of(&c, 1, close));
        }
        return None;
    }
    assert(c@.subrange(0, n as int) == c@);
    if digits_between(&c, 0, n) || find_char(&c, '/', 0) < n {
        return Some(text_of(&c, 0, n));
    }
    assert(!c@.contains('/'));
    if n >= 6 && digits_between(&c, 0, 4) && ascii_upper(c[4]) && ascii_upper(c[5])
        && digits_between(&c, 6, n) {
        proof {
            assert(c@.subrange(0, 4) == c@.take(4));
            assert(c@.subrange(6, n as int) == c@.skip(6));
            assert(c@.subrange(4, n as int) == c@.skip(4));
        }
        let mut out: String = text_of(&c, 0, 4);
        out.push(' ');
        let rest = text_of(&c, 4, n);
        out.append(rest.as_str());
        assert(out@ == c@.take(4) + seq![' '] + c@.skip(4));
        return Some(out);
    }
    proof {
        if n >= 6 {
            assert(c@.subrange(0, 4) == c@.take(4));
            assert(c@.subrange(6, n as int) == c@.skip(6));
        }
    }
    let last: char = c[n - 1];
    if last == 'P' || last == 'C' || last == 'D' || last == 'X' || last == 'I' {
        Some(text_of(&c, 0, n))
    } else {
        None
    }
}

} // verus!

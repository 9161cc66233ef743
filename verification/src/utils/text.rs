//! Text as the catalogue formats use it: whitespace, digits, decimal numbers and
//! byte columns of a line.

use vstd::prelude::*;
use vstd::string::*;
use vstd::utf8::*;

verus! {

/// `String::push` appends its character to the end of the text.
pub assume_specification[ String::push ](s: &mut String, c: char)
    ensures
        final(s)@ == old(s)@.push(c),
;

/// An ASCII decimal digit.
pub open spec fn is_digit(c: char) -> bool {
    '0' <= c && c <= '9'
}

/// An ASCII upper-case letter.
pub open spec fn is_upper(c: char) -> bool {
    'A' <= c && c <= 'Z'
}

/// Every character is an ASCII decimal digit.
pub open spec fn all_digits(s: Seq<char>) -> bool {
    forall|i: int| 0 <= i < s.len() ==> is_digit(#[trigger] s[i])
}

/// A character with the Unicode property White_Space.
pub open spec fn is_whitespace(c: char) -> bool {
    ||| 0x09 <= c as u32 <= 0x0d
    ||| c as u32 == 0x20
    ||| c as u32 == 0x85
    ||| c as u32 == 0xa0
    ||| c as u32 == 0x1680
    ||| 0x2000 <= c as u32 <= 0x200a
    ||| c as u32 == 0x2028
    ||| c as u32 == 0x2029
    ||| c as u32 == 0x202f
    ||| c as u32 == 0x205f
    ||| c as u32 == 0x3000
}

/// `s` without its leading whitespace.
pub open spec fn trimmed_start(s: Seq<char>) -> Seq<char>
    decreases s.len(),
{
    if s.len() > 0 && is_whitespace(s[0]) {
        trimmed_start(s.drop_first())
    } else {
        s
    }
}

/// `s` without its trailing whitespace.
pub open spec fn trimmed_end(s: Seq<char>) -> Seq<char>
    decreases s.len(),
{
    if s.len() > 0 && is_whitespace(s.last()) {
        trimmed_end(s.drop_last())
    } else {
        s
    }
}

/// `s` without whitespace at either end.
pub open spec fn trimmed(s: Seq<char>) -> Seq<char> {
    trimmed_end(trimmed_start(s))
}

/// `s` without its leading zeros.
pub open spec fn without_leading_zeros(s: Seq<char>) -> Seq<char>
    decreases s.len(),
{
    if s.len() > 0 && s[0] == '0' {
        without_leading_zeros(s.drop_first())
    } else {
        s
    }
}

/// The digit character of a value below ten.
pub open spec fn digit_char(d: nat) -> char {
    (d + '0' as nat) as char
}

/// The value of a digit character.
pub open spec fn digit_value(c: char) -> nat {
    (c as int - '0' as int) as nat
}

/// `n` written in decimal.
pub open spec fn decimal(n: nat) -> Seq<char>
    decreases n,
{
    if n < 10 {
        seq![digit_char(n)]
    } else {
        decimal(n / 10).push(digit_char(n % 10))
    }
}

/// `n` written in decimal, behind a minus sign where it is negative.
pub open spec fn signed_decimal(n: int) -> Seq<char> {
    if n < 0 {
        seq!['-'] + decimal((-n) as nat)
    } else {
        decimal(n as nat)
    }
}

/// The number that a run of digits writes.
pub open spec fn digits_value(s: Seq<char>) -> nat
    decreases s.len(),
{
    if s.len() == 0 {
        0
    } else {
        digits_value(s.drop_last()) * 10 + digit_value(s.last())
    }
}

/// The texts of a list of strings.
pub open spec fn texts(names: Seq<String>) -> Seq<Seq<char>> {
    names.map_values(|s: String| s@)
}

/// The bytes `start..end` of a line as trimmed text. Nothing, where the range runs
/// past the line or cuts a character in two.
pub open spec fn column_text(line: Seq<char>, start: int, end: int) -> Option<Seq<char>> {
    let bytes = encode_utf8(line);
    if start <= end <= bytes.len() && is_char_boundary(bytes, start) && is_char_boundary(
        bytes,
        end,
    ) {
        Some(trimmed(decode_utf8(bytes.subrange(start, end))))
    } else {
        None
    }
}

/// Whether `c` is an ASCII decimal digit.
pub fn ascii_digit(c: char) -> (r: bool)
    ensures
        r == is_digit(c),
{
    '0' <= c && c <= '9'
}

/// Whether `c` is an ASCII upper-case letter.
pub fn ascii_upper(c: char) -> (r: bool)
    ensures
        r == is_upper(c),
{
    'A' <= c && c <= 'Z'
}

/// Whether `c` has the Unicode property White_Space.
pub fn whitespace(c: char) -> (r: bool)
    ensures
        r == is_whitespace(c),
{
    let u: u32 = c as u32;
    (0x09 <= u && u <= 0x0d) || u == 0x20 || u == 0x85 || u == 0xa0 || u == 0x1680 || (0x2000 <= u
        && u <= 0x200a) || u == 0x2028 || u == 0x2029 || u == 0x202f || u == 0x205f || u == 0x3000
}

/// The characters of `s`.
pub fn chars(s: &str) -> (r: Vec<char>)
    ensures
        r@ == s@,
{
    let mut out: Vec<char> = Vec::new();
    for c in it: s.chars()
        invariant
            it.seq() == s@,
            out@ == s@.take(it.index()),
    {
        out.push(c);
    }
    out
}

/// The text made of the characters `start..end` of `c`.
pub fn text_of(c: &Vec<char>, start: usize, end: usize) -> (r: String)
    requires
        start <= end <= c.len(),
    ensures
        r@ == c@.subrange(start as int, end as int),
{
    let mut out: String = String::new();
    let mut i: usize = start;
    while i < end
        invariant
            start <= i <= end <= c.len(),
            out@ == c@.subrange(start as int, i as int),
        decreases end - i,
    {
        out.push(c[i]);
        i = i + 1;
        assert(c@.subrange(start as int, i as int) == c@.subrange(start as int, i - 1).push(
            c@[i - 1],
        ));
    }
    out
}

/// Whether the characters `start..end` of `c` are all decimal digits.
pub fn digits_between(c: &Vec<char>, start: usize, end: usize) -> (r: bool)
    requires
        start <= end <= c.len(),
    ensures
        r == all_digits(c@.subrange(start as int, end as int)),
{
    let mut i: usize = start;
    while i < end
        invariant
            start <= i <= end <= c.len(),
            forall|k: int| start <= k < i ==> is_digit(#[trigger] c@[k]),
        decreases end - i,
    {
        if !ascii_digit(c[i]) {
            assert(!is_digit(c@.subrange(start as int, end as int)[i - start]));
            return false;
        }
        i = i + 1;
    }
    true
}

/// `s` without whitespace at either end, as `str::trim` gives it.
pub fn trim(s: &str) -> (r: &str)
    ensures
        r@ == trimmed(s@),
{
    let c = chars(s);
    let mut start: usize = 0;
    assert(s@.skip(0) == s@);
    while start < c.len() && whitespace(c[start])
        invariant
            start <= c.len(),
            c@ == s@,
            trimmed_start(s@) == trimmed_start(s@.skip(start as int)),
        decreases c.len() - start,
    {
        assert(s@.skip(start as int).drop_first() == s@.skip(start + 1));
        start = start + 1;
    }
    let mut end: usize = c.len();
    assert(s@.subrange(start as int, end as int) == s@.skip(start as int));
    while end > start && whitespace(c[end - 1])
        invariant
            start <= end <= c.len(),
            c@ == s@,
            trimmed(s@) == trimmed_end(s@.subrange(start as int, end as int)),
        decreases end,
    {
        assert(s@.subrange(start as int, end as int).drop_last() == s@.subrange(
            start as int,
            end - 1,
        ));
        end = end - 1;
    }
    s.substring_char(start, end)
}

/// `n` written in decimal.
pub fn decimal_text(n: u64) -> (r: String)
    ensures
        r@ == decimal(n as nat),
    decreases n,
{
    if n < 10 {
        let mut out: String = String::new();
        out.push((48 + n as u8) as char);
        assert(out@ == decimal(n as nat));
        out
    } else {
        let mut out: String = decimal_text(n / 10);
        out.push((48 + (n % 10) as u8) as char);
        out
    }
}

/// `n` written in decimal, with its sign.
pub fn signed_decimal_text(n: i64) -> (r: String)
    ensures
        r@ == signed_decimal(n as int),
{
    if n >= 0 {
        decimal_text(n as u64)
    } else {
        let mut out: String = String::new();
        out.push('-');
        let magnitude: u64 = (-(n + 1)) as u64 + 1;
        let digits = decimal_text(magnitude);
        out.append(digits.as_str());
        assert(out@ == signed_decimal(n as int));
        out
    }
}

/// Whether two texts are the same.
pub fn same_text(a: &str, b: &str) -> (r: bool)
    ensures
        r == (a@ == b@),
{
    a.to_owned() == b.to_owned()
}

/// The bytes `start..end` of `line`.
pub fn cut(line: &str, start: usize, end: usize) -> (r: &str)
    requires
        start <= end <= encode_utf8(line@).len(),
        is_char_boundary(encode_utf8(line@), start as int),
        is_char_boundary(encode_utf8(line@), end as int),
    ensures
        r@ == decode_utf8(encode_utf8(line@).subrange(start as int, end as int)),
        encode_utf8(r@) == encode_utf8(line@).subrange(start as int, end as int),
{
    let ghost bytes = line.spec_bytes();
    proof {
        encode_utf8_valid_utf8(line@);
        lemma_boundary_of_prefix(bytes, start as int, end as int);
    }
    let (head, _) = line.split_at(end);
    let (_, middle) = head.split_at(start);
    proof {
        assert(middle.spec_bytes() == bytes.subrange(start as int, end as int));
        encode_utf8_decode_utf8(middle@);
    }
    middle
}

/// The bytes `start..end` of `line`, trimmed.
pub fn column_between(line: &str, start: usize, end: usize) -> (r: Option<&str>)
    ensures
        match r {
            Some(text) => column_text(line@, start as int, end as int) == Some(text@),
            None => column_text(line@, start as int, end as int) is None,
        },
{
    if start <= end && end <= line.as_bytes().len() && line.is_char_boundary(start)
        && line.is_char_boundary(end) {
        Some(trim(cut(line, start, end)))
    } else {
        None
    }
}

/// A boundary of a text is a boundary of every prefix that reaches it.
proof fn lemma_boundary_of_prefix(bytes: Seq<u8>, start: int, end: int)
    requires
        valid_utf8(bytes),
        0 <= start <= end <= bytes.len(),
        is_char_boundary(bytes, start),
        is_char_boundary(bytes, end),
    ensures
        is_char_boundary(bytes.subrange(0, end), start),
{
    valid_utf8_split(bytes, end);
    let prefix = bytes.subrange(0, end);
    if start < end {
        is_char_boundary_iff_not_is_continuation_byte(bytes, start);
        is_char_boundary_iff_not_is_continuation_byte(prefix, start);
        assert(prefix[start] == bytes[start]);
    } else {
        is_char_boundary_start_end_of_seq(prefix);
    }
}

/// Characters take a byte at least, and exactly one each only where all are ASCII.
pub proof fn lemma_bytes_per_char(s: Seq<char>)
    ensures
        encode_utf8(s).len() >= s.len(),
        encode_utf8(s).len() == s.len() ==> is_ascii_chars(s),
    decreases s.len(),
{
    if s.len() > 0 {
        lemma_bytes_per_char(s.drop_first());
        let first = encode_scalar(s[0] as u32);
        assert(encode_utf8(s) == first + encode_utf8(s.drop_first()));
        if encode_utf8(s).len() == s.len() {
            assert(first.len() == 1);
            char_is_scalar(s[0]);
            char_u32_cast(s[0], s[0] as u32);
            assert forall|i: int| 0 <= i < s.len() implies 0 <= #[trigger] s[i] < 128 by {
                if i > 0 {
                    assert(s[i] == s.drop_first()[i - 1]);
                }
            }
        }
    }
}

/// A number in decimal consists of digits, and starts with 0 only where it is 0.
pub proof fn lemma_decimal(n: nat)
    ensures
        decimal(n).len() > 0,
        all_digits(decimal(n)),
        decimal(n)[0] == '0' <==> n == 0,
    decreases n,
{
    if n >= 10 {
        lemma_decimal(n / 10);
        let high = decimal(n / 10);
        assert(high.push(digit_char(n % 10))[0] == high[0]);
        assert forall|i: int| 0 <= i < decimal(n).len() implies is_digit(
            #[trigger] decimal(n)[i],
        ) by {
            if i < high.len() {
                assert(decimal(n)[i] == high[i]);
            }
        }
    }
}

proof fn lemma_decimal_is_injective(a: nat, b: nat)
    requires
        decimal(a) == decimal(b),
    ensures
        a == b,
    decreases a,
{
    let s = decimal(a);
    lemma_decimal(a / 10);
    lemma_decimal(b / 10);
    if a < 10 || b < 10 {
        assert(s.len() == 1);
        assert(s[0] == digit_char(a % 10) && s[0] == digit_char(b % 10));
    } else {
        assert(s.drop_last() =~= decimal(a / 10) && s.drop_last() =~= decimal(b / 10));
        assert(s.last() == digit_char(a % 10) && s.last() == digit_char(b % 10));
        lemma_decimal_is_injective(a / 10, b / 10);
    }
}

/// Numbers are told apart by how they are written.
pub proof fn law_numbers_are_told_apart(a: int, b: int)
    requires
        signed_decimal(a) == signed_decimal(b),
    ensures
        a == b,
{
    let s = signed_decimal(a);
    if a < 0 {
        lemma_decimal((-a) as nat);
        assert(s[0] == '-');
    } else {
        lemma_decimal(a as nat);
        assert(is_digit(s[0]));
    }
    if b < 0 {
        lemma_decimal((-b) as nat);
        assert(s[0] == '-');
    } else {
        lemma_decimal(b as nat);
        assert(is_digit(s[0]));
    }
    if a < 0 {
        assert(s.drop_first() =~= decimal((-a) as nat) && s.drop_first() =~= decimal((-b) as nat));
        lemma_decimal_is_injective((-a) as nat, (-b) as nat);
    } else {
        lemma_decimal_is_injective(a as nat, b as nat);
    }
}

/// Trimming a trimmed text changes nothing.
pub proof fn lemma_trim_is_trimmed(s: Seq<char>)
    ensures
        trimmed(trimmed(s)) == trimmed(s),
{
    lemma_trim_start(s);
    lemma_trim_end(trimmed_start(s));
    let t = trimmed(s);
    if t.len() > 0 {
        assert(t[0] == trimmed_start(s)[0]);
    }
}

/// A text without its leading whitespace is no longer, and starts with none.
pub proof fn lemma_trim_start(s: Seq<char>)
    ensures
        trimmed_start(s).len() <= s.len(),
        trimmed_start(s).len() > 0 ==> !is_whitespace(trimmed_start(s)[0]),
    decreases s.len(),
{
    if s.len() > 0 && is_whitespace(s[0]) {
        lemma_trim_start(s.drop_first());
    }
}

/// A text without its trailing whitespace is no longer, and ends with none.
pub proof fn lemma_trim_end(s: Seq<char>)
    ensures
        trimmed_end(s).len() <= s.len(),
        trimmed_end(s).len() > 0 ==> !is_whitespace(trimmed_end(s).last())
            && trimmed_end(s)[0] == s[0],
    decreases s.len(),
{
    if s.len() > 0 && is_whitespace(s.last()) {
        lemma_trim_end(s.drop_last());
    }
}

/// A text that neither starts nor ends with whitespace is trimmed.
pub proof fn lemma_trimmed(s: Seq<char>)
    requires
        s.len() > 0,
        !is_whitespace(s[0]),
        !is_whitespace(s.last()),
    ensures
        trimmed(s) == s,
{
}

/// Trimming the end of a text keeps a prefix that ends with no whitespace.
pub proof fn lemma_trimmed_end_keeps_prefix(p: Seq<char>, rest: Seq<char>)
    requires
        p.len() > 0,
        !is_whitespace(p.last()),
    ensures
        exists|tail: Seq<char>| trimmed_end(p + rest) == #[trigger] (p + tail),
    decreases rest.len(),
{
    if rest.len() == 0 {
        assert(p + rest == p);
        assert(trimmed_end(p + rest) == p + rest);
    } else if is_whitespace(rest.last()) {
        assert((p + rest).drop_last() == p + rest.drop_last());
        lemma_trimmed_end_keeps_prefix(p, rest.drop_last());
    } else {
        assert(trimmed_end(p + rest) == p + rest);
    }
}

proof fn lemma_trimmed_start_is_part(s: Seq<char>, c: char)
    requires
        trimmed_start(s).contains(c),
    ensures
        s.contains(c),
    decreases s.len(),
{
    if s.len() > 0 && is_whitespace(s[0]) {
        lemma_trimmed_start_is_part(s.drop_first(), c);
        let i = choose|i: int| 0 <= i < s.drop_first().len() && s.drop_first()[i] == c;
        assert(s[i + 1] == c);
    }
}

proof fn lemma_trimmed_end_is_part(s: Seq<char>, c: char)
    requires
        trimmed_end(s).contains(c),
    ensures
        s.contains(c),
    decreases s.len(),
{
    if s.len() > 0 && is_whitespace(s.last()) {
        lemma_trimmed_end_is_part(s.drop_last(), c);
        let i = choose|i: int| 0 <= i < s.drop_last().len() && s.drop_last()[i] == c;
        assert(s[i] == c);
    }
}

/// The characters of a column are characters of the line.
pub proof fn lemma_column_is_part_of_line(line: Seq<char>, start: int, end: int)
    requires
        0 <= start,
        column_text(line, start, end) is Some,
    ensures
        forall|i: int|
            0 <= i < column_text(line, start, end)->0.len() ==> line.contains(
                #[trigger] column_text(line, start, end)->0[i],
            ),
{
    let bytes = encode_utf8(line);
    let prefix = bytes.subrange(0, end);
    let column = decode_utf8(bytes.subrange(start, end));
    encode_utf8_valid_utf8(line);
    encode_utf8_decode_utf8(line);
    valid_utf8_split(bytes, end);
    lemma_boundary_of_prefix(bytes, start, end);
    decode_utf8_split(bytes, end);
    decode_utf8_split(prefix, start);
    assert(prefix.subrange(start, end) =~= bytes.subrange(start, end));
    let front = decode_utf8(prefix.subrange(0, start));
    let t = column_text(line, start, end)->0;
    assert forall|i: int| 0 <= i < t.len() implies line.contains(#[trigger] t[i]) by {
        let c = t[i];
        assert(trimmed(column).contains(c));
        lemma_trimmed_end_is_part(trimmed_start(column), c);
        lemma_trimmed_start_is_part(column, c);
        let k = choose|k: int| 0 <= k < column.len() && column[k] == c;
        assert(decode_utf8(prefix)[front.len() + k] == c);
        assert(line[front.len() + k] == c);
    }
}

} // verus!

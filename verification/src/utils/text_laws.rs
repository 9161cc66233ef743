//! What holds of the texts that catalogues are written in.

use crate::utils::text;
use vstd::arithmetic::power::*;
use vstd::prelude::*;
use vstd::utf8::*;

verus! {

/// White space are these twenty-five characters of Unicode.
pub proof fn law_white_space_characters(c: char)
    ensures
        text::is_whitespace(c) <==> set![
            0x9u32,
            0xau32,
            0xbu32,
            0xcu32,
            0xdu32,
            0x20u32,
            0x85u32,
            0xa0u32,
            0x1680u32,
            0x2000u32,
            0x2001u32,
            0x2002u32,
            0x2003u32,
            0x2004u32,
            0x2005u32,
            0x2006u32,
            0x2007u32,
            0x2008u32,
            0x2009u32,
            0x200au32,
            0x2028u32,
            0x2029u32,
            0x202fu32,
            0x205fu32,
            0x3000u32,
        ].contains(c as u32),
{
}

proof fn lemma_trimmed_start_is_suffix(s: Seq<char>) -> (i: int)
    ensures
        0 <= i <= s.len(),
        text::trimmed_start(s) == s.skip(i),
        forall|k: int| 0 <= k < i ==> text::is_whitespace(#[trigger] s[k]),
        i < s.len() ==> !text::is_whitespace(s[i]),
    decreases s.len(),
{
    if s.len() > 0 && text::is_whitespace(s[0]) {
        let rest = s.drop_first();
        let j = lemma_trimmed_start_is_suffix(rest);
        assert(rest.skip(j) =~= s.skip(j + 1));
        assert forall|k: int| 0 <= k < j + 1 implies text::is_whitespace(#[trigger] s[k]) by {
            if k > 0 {
                assert(s[k] == rest[k - 1]);
            }
        }
        if j + 1 < s.len() {
            assert(s[j + 1] == rest[j]);
        }
        j + 1
    } else {
        assert(s.skip(0) =~= s);
        0
    }
}

proof fn lemma_trimmed_end_is_prefix(s: Seq<char>) -> (j: int)
    ensures
        0 <= j <= s.len(),
        text::trimmed_end(s) == s.take(j),
        forall|k: int| j <= k < s.len() ==> text::is_whitespace(#[trigger] s[k]),
        j > 0 ==> !text::is_whitespace(s[j - 1]),
    decreases s.len(),
{
    if s.len() > 0 && text::is_whitespace(s.last()) {
        let rest = s.drop_last();
        let j = lemma_trimmed_end_is_prefix(rest);
        assert(rest.take(j) =~= s.take(j));
        assert forall|k: int| j <= k < s.len() implies text::is_whitespace(#[trigger] s[k]) by {
            if k < s.len() - 1 {
                assert(s[k] == rest[k]);
            }
        }
        j
    } else {
        assert(s.take(s.len() as int) =~= s);
        s.len() as int
    }
}

/// Trimming takes white space off both ends and nothing else: what is left is a part of the
/// text that has none at its ends, and all that was taken off was white space.
pub proof fn law_trimming_takes_off_white_space_alone(s: Seq<char>)
    ensures
        exists|i: int, j: int|
            {
                &&& 0 <= i <= j <= s.len()
                &&& text::trimmed(s) == #[trigger] s.subrange(i, j)
                &&& forall|k: int| 0 <= k < i || j <= k < s.len() ==> text::is_whitespace(
                    #[trigger] s[k],
                )
                &&& i < j ==> !text::is_whitespace(s[i]) && !text::is_whitespace(s[j - 1])
            },
{
    let i = lemma_trimmed_start_is_suffix(s);
    let t = s.skip(i);
    let n = lemma_trimmed_end_is_prefix(t);
    let j = i + n;
    assert(t.take(n) =~= s.subrange(i, j));
    assert forall|k: int| 0 <= k < i || j <= k < s.len() implies text::is_whitespace(
        #[trigger] s[k],
    ) by {
        if k >= j {
            assert(s[k] == t[k - i]);
        }
    }
    if n > 0 {
        assert(t[n - 1] == s[j - 1]);
        assert(s[i] == t[0]);
    }
    assert(text::trimmed(s) == s.subrange(i, j));
}

/// Digits are the ten characters from 0 on, in the order of their values.
pub proof fn law_digits_have_their_values(c: char, d: nat)
    ensures
        text::is_digit(c) <==> 48 <= c as u32 <= 57,
        text::is_digit(c) ==> text::digit_value(c) == c as u32 - 48,
        d < 10 ==> text::is_digit(text::digit_char(d)) && text::digit_value(text::digit_char(d))
            == d,
{
}

/// A number that is written in decimal reads as itself, by digits alone, and without zeros in
/// front.
pub proof fn law_decimal_text_reads_as_the_number(n: nat)
    ensures
        text::digits_value(text::decimal(n)) == n,
        text::all_digits(text::decimal(n)),
        text::decimal(n).len() > 0,
        n > 0 ==> text::decimal(n)[0] != '0',
    decreases n,
{
    text::lemma_decimal(n);
    if n < 10 {
        assert(text::decimal(n).drop_last() =~= Seq::<char>::empty());
        assert(text::digits_value(Seq::<char>::empty()) == 0);
    } else {
        law_decimal_text_reads_as_the_number(n / 10);
        assert(text::decimal(n).drop_last() =~= text::decimal(n / 10));
    }
}

/// The digits in front count ten times for each digit behind them.
pub proof fn law_digits_count_by_their_place(a: Seq<char>, b: Seq<char>)
    ensures
        text::digits_value(a + b) == text::digits_value(a) * pow(10, b.len()) + text::digits_value(
            b,
        ),
    decreases b.len(),
{
    if b.len() == 0 {
        assert(a + b =~= a);
        lemma_pow0(10);
    } else {
        let front = b.drop_last();
        law_digits_count_by_their_place(a, front);
        assert((a + b).drop_last() =~= a + front);
        let p = pow(10, front.len());
        assert(pow(10, b.len()) == 10 * p) by {
            reveal(pow);
        }
        let v = text::digits_value(a) as int;
        assert(v * (10 * p) == 10 * (v * p)) by (nonlinear_arith);
    }
}

/// A negative number is written as the number without its sign behind a minus.
pub proof fn law_signs_stand_in_front(n: nat)
    ensures
        text::signed_decimal(n as int) == text::decimal(n),
        n > 0 ==> text::signed_decimal(-(n as int)) == seq!['-'] + text::decimal(n),
{
}

/// Taking off zeros in front takes off nothing else, and leaves the number what it was.
pub proof fn law_zeros_in_front_count_nothing(s: Seq<char>)
    ensures
        text::without_leading_zeros(s).len() > 0 ==> text::without_leading_zeros(s)[0] != '0',
        exists|i: int|
            {
                &&& 0 <= i <= s.len()
                &&& text::without_leading_zeros(s) == #[trigger] s.skip(i)
                &&& forall|k: int| 0 <= k < i ==> (#[trigger] s[k]) == '0'
            },
        text::digits_value(text::without_leading_zeros(s)) == text::digits_value(s),
    decreases s.len(),
{
    if s.len() > 0 && s[0] == '0' {
        let rest = s.drop_first();
        law_zeros_in_front_count_nothing(rest);
        let i = choose|i: int|
            {
                &&& 0 <= i <= rest.len()
                &&& text::without_leading_zeros(rest) == #[trigger] rest.skip(i)
                &&& forall|k: int| 0 <= k < i ==> (#[trigger] rest[k]) == '0'
            };
        assert(s.skip(i + 1) =~= rest.skip(i));
        assert forall|k: int| 0 <= k < i + 1 implies (#[trigger] s[k]) == '0' by {
            if k > 0 {
                assert(s[k] == rest[k - 1]);
            }
        }
        let zero = seq!['0'];
        assert(s =~= zero + rest);
        law_digits_count_by_their_place(zero, rest);
        assert(zero.drop_last() =~= Seq::<char>::empty());
        assert(text::digits_value(zero) == 0) by {
            reveal_with_fuel(text::digits_value, 2);
        }
        assert(0 * pow(10, rest.len()) == 0) by (nonlinear_arith);
    } else {
        assert(s.skip(0) =~= s);
    }
}

/// In a line of ASCII the columns are counted in characters: a column is the characters from
/// its start to its end, trimmed, and there is none where it runs past the line.
pub proof fn law_columns_are_characters_of_the_line(line: Seq<char>, start: int, end: int)
    requires
        is_ascii_chars(line),
        0 <= start <= end,
    ensures
        encode_utf8(line).len() == line.len(),
        text::column_text(line, start, end) == if end <= line.len() {
            Some(text::trimmed(line.subrange(start, end)))
        } else {
            None
        },
{
    is_ascii_chars_encode_utf8(line);
    let bytes = encode_utf8(line);
    if end <= line.len() {
        lemma_ascii_boundary(line, start);
        lemma_ascii_boundary(line, end);
        let part = line.subrange(start, end);
        is_ascii_chars_encode_utf8(part);
        assert(encode_utf8(part) =~= bytes.subrange(start, end));
        encode_utf8_decode_utf8(part);
    }
}

proof fn lemma_ascii_boundary(line: Seq<char>, at: int)
    requires
        is_ascii_chars(line),
        0 <= at <= line.len(),
    ensures
        is_char_boundary(encode_utf8(line), at),
{
    is_ascii_chars_encode_utf8(line);
    encode_utf8_valid_utf8(line);
    let bytes = encode_utf8(line);
    is_char_boundary_start_end_of_seq(bytes);
    if at < line.len() {
        is_char_boundary_iff_not_is_continuation_byte(bytes, at);
    }
}

/// A text is made of digits exactly where no character of it is anything else.
pub proof fn law_a_text_of_digits_holds_nothing_else(s: Seq<char>, i: int)
    ensures
        0 <= i < s.len() && !('0' <= s[i] <= '9') ==> !text::all_digits(s),
        (forall|k: int| 0 <= k < s.len() ==> '0' <= #[trigger] s[k] <= '9') ==> text::all_digits(s),
        text::is_upper('A') && text::is_upper('Z') && !text::is_upper('a'),
{
}

} // verus!

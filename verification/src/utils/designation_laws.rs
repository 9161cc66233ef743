//! What holds of designations as a whole: packing and unpacking agree, and the names
//! that alerts carry lead to the keys that the catalogue is written under.

use crate::utils::designation;
use crate::utils::text;
use vstd::prelude::*;
use vstd::string::*;

verus! {

/// `n` in decimal, padded with zeros to `width` digits.
pub open spec fn zero_padded(n: nat, width: nat) -> Seq<char>
    decreases width,
{
    if width == 0 {
        seq![]
    } else {
        zero_padded(n / 10, (width - 1) as nat).push(text::digit_char(n % 10))
    }
}

/// The packed character of a value below 62.
pub open spec fn packed_char(v: nat) -> char {
    if v < 10 {
        text::digit_char(v)
    } else if v < 36 {
        (v - 10 + 'A' as nat) as char
    } else {
        (v - 36 + 'a' as nat) as char
    }
}

/// `n` in base 62, padded to `width` packed characters.
pub open spec fn base62_padded(n: nat, width: nat) -> Seq<char>
    decreases width,
{
    if width == 0 {
        seq![]
    } else {
        base62_padded(n / 62, (width - 1) as nat).push(packed_char(n % 62))
    }
}

/// The packed form of a minor planet's number.
pub open spec fn packed_permanent(n: nat) -> Seq<char> {
    if n < 100_000 {
        zero_padded(n, 5)
    } else if n < 620_000 {
        seq![packed_char(n / 10_000)] + zero_padded(n % 10_000, 4)
    } else {
        seq!['~'] + base62_padded((n - 620_000) as nat, 4)
    }
}

/// The letter of a century.
pub open spec fn century_letter(hundreds: nat) -> char {
    if hundreds == 18 {
        'I'
    } else if hundreds == 19 {
        'J'
    } else {
        'K'
    }
}

/// The packed form of a provisional designation.
pub open spec fn packed_provisional(year: nat, half_month: char, order: char, cycle: nat) -> Seq<
    char,
> {
    seq![
        century_letter(year / 100),
        text::digit_char(year / 10 % 10),
        text::digit_char(year % 10),
        half_month,
        packed_char(cycle / 10),
        text::digit_char(cycle % 10),
        order,
    ]
}

/// The packed form of a designation beyond the two-character cycle, by the object's
/// place in its half-month counted from 1.
pub open spec fn packed_extended(year: nat, half_month: char, ordinal: nat) -> Seq<char> {
    seq!['_', packed_char((year - 2000) as nat), half_month] + base62_padded(
        (ordinal - designation::EXTENDED_FIRST_ORDINAL) as nat,
        4,
    )
}

/// A provisional designation as alerts carry it, without the space.
pub open spec fn compact_provisional(year: nat, half_month: char, order: char, cycle: nat) -> Seq<
    char,
> {
    let head = text::decimal(year) + seq![half_month, order];
    if cycle == 0 {
        head
    } else {
        head + text::decimal(cycle)
    }
}

proof fn lemma_zero_padded(n: nat, width: nat)
    requires
        width <= 5,
        width == 0 ==> n < 1,
        width == 1 ==> n < 10,
        width == 2 ==> n < 100,
        width == 3 ==> n < 1_000,
        width == 4 ==> n < 10_000,
        width == 5 ==> n < 100_000,
    ensures
        zero_padded(n, width).len() == width,
        text::all_digits(zero_padded(n, width)),
        text::digits_value(zero_padded(n, width)) == n,
        n > 0 ==> text::without_leading_zeros(zero_padded(n, width)) == text::decimal(n),
        n == 0 ==> text::without_leading_zeros(zero_padded(n, width)).len() == 0,
    decreases width,
{
    if width > 0 {
        let w = (width - 1) as nat;
        lemma_zero_padded(n / 10, w);
        let high = zero_padded(n / 10, w);
        let c = text::digit_char(n % 10);
        let s = zero_padded(n, width);
        assert(s.drop_last() == high);
        assert forall|i: int| 0 <= i < s.len() implies text::is_digit(#[trigger] s[i]) by {
            if i < w {
                assert(s[i] == high[i]);
            }
        }
        lemma_strip_push(high, c);
        if 0 < n < 10 {
            assert(text::without_leading_zeros(s) == seq![c]);
        }
    }
}

proof fn lemma_strip_push(s: Seq<char>, c: char)
    ensures
        text::without_leading_zeros(s).len() > 0 ==> text::without_leading_zeros(s.push(c))
            == text::without_leading_zeros(s).push(c),
        text::without_leading_zeros(s).len() == 0 && c != '0' ==> text::without_leading_zeros(
            s.push(c),
        ) == seq![c],
        text::without_leading_zeros(s).len() == 0 && c == '0' ==> text::without_leading_zeros(
            s.push(c),
        ).len() == 0,
    decreases s.len(),
{
    if s.len() == 0 {
        reveal_with_fuel(text::without_leading_zeros, 2);
        assert(s.push(c).drop_first() == Seq::<char>::empty());
        assert(s.push(c) == seq![c]);
    } else if s[0] == '0' {
        lemma_strip_push(s.drop_first(), c);
        assert(s.push(c).drop_first() == s.drop_first().push(c));
    }
}

proof fn lemma_packed_char(v: nat)
    requires
        v < 62,
    ensures
        designation::packed_number(packed_char(v)) == Some(v),
        v >= 10 ==> !text::is_digit(packed_char(v)),
        packed_char(v) != '~' && packed_char(v) != '_' && packed_char(v) != '+',
{
}

proof fn lemma_base62_padded(n: nat, width: nat)
    requires
        width <= 4,
        width == 0 ==> n < 1,
        width == 1 ==> n < 62,
        width == 2 ==> n < 3_844,
        width == 3 ==> n < 238_328,
        width == 4 ==> n < 14_776_336,
    ensures
        base62_padded(n, width).len() == width,
        designation::base62(base62_padded(n, width)) == Some(n),
    decreases width,
{
    if width > 0 {
        lemma_base62_padded(n / 62, (width - 1) as nat);
        lemma_packed_char(n % 62);
        assert(base62_padded(n, width).drop_last() == base62_padded(n / 62, (width - 1) as nat));
    }
}

/// Unpacking gives back the number of every numbered object that has a packed form,
/// without padding.
pub proof fn law_numbers_unpack_to_themselves(n: nat)
    requires
        1 <= n < 620_000 + 14_776_336,
    ensures
        designation::unpacked(packed_permanent(n)) == Some(text::decimal(n)),
{
    let s = packed_permanent(n);
    if n < 100_000 {
        lemma_zero_padded(n, 5);
        assert(text::is_digit(s[0]));
    } else if n < 620_000 {
        lemma_zero_padded(n % 10_000, 4);
        lemma_packed_char(n / 10_000);
        let low = zero_padded(n % 10_000, 4);
        assert(s.skip(1) == low);
        assert(text::is_digit(low[0]));
        assert(!text::is_digit(s[0]));
    } else {
        lemma_base62_padded((n - 620_000) as nat, 4);
        assert(s.skip(1) == base62_padded((n - 620_000) as nat, 4));
    }
}

/// Unpacking gives back the year, the letters and the cycle of every provisional
/// designation that has a seven-character packed form.
pub proof fn law_provisional_designations_unpack_to_themselves(
    year: nat,
    half_month: char,
    order: char,
    cycle: nat,
)
    requires
        1800 <= year < 2100,
        cycle < 620,
    ensures
        designation::unpacked(packed_provisional(year, half_month, order, cycle)) == Some(
            designation::provisional(year, half_month, order, cycle),
        ),
{
    let s = packed_provisional(year, half_month, order, cycle);
    lemma_packed_char(cycle / 10);
    reveal_strlit("PLS");
    reveal_strlit("T1S");
    reveal_strlit("T2S");
    reveal_strlit("T3S");
    assert(s.take(3)[0] == s[0]);
    assert("PLS"@[0] == 'P' && "T1S"@[0] == 'T' && "T2S"@[0] == 'T' && "T3S"@[0] == 'T');
    assert(designation::survey_name(s.take(3)) is None);
}

/// Unpacking an extended designation gives the letter and the cycle of the object's
/// place in its half-month, for every place that the four base-62 digits can count to.
pub proof fn law_extended_designations_count_on(year: nat, half_month: char, ordinal: nat)
    requires
        2000 <= year < 2062,
        designation::EXTENDED_FIRST_ORDINAL <= ordinal < designation::EXTENDED_FIRST_ORDINAL
            + 14_776_336,
    ensures
        designation::unpacked(packed_extended(year, half_month, ordinal)) == Some(
            designation::provisional(
                year,
                half_month,
                designation::order_letter((ordinal - 1) as nat),
                ((ordinal - 1) / 25) as nat,
            ),
        ),
        (ordinal - 1) / 25 >= 620,
{
    let s = packed_extended(year, half_month, ordinal);
    let offset = (ordinal - designation::EXTENDED_FIRST_ORDINAL) as nat;
    lemma_packed_char((year - 2000) as nat);
    lemma_base62_padded(offset, 4);
    assert(s.subrange(3, 7) == base62_padded(offset, 4));
}

/// The order letter is an upper-case letter other than I.
pub proof fn law_order_letters_skip_i(index: nat)
    ensures
        text::is_upper(designation::order_letter(index)),
        designation::order_letter(index) != 'I',
{
    reveal_strlit("ABCDEFGHJKLMNOPQRSTUVWXYZ");
    let k = index % 25;
    assert(designation::ORDER_LETTERS@[0] == 'A');
    if k < 8 {
        assert(designation::ORDER_LETTERS@[k as int] == (k + 'A' as nat) as char);
    } else {
        assert(designation::ORDER_LETTERS@[k as int] == (k + 1 + 'A' as nat) as char);
    }
}

/// A permanent number is its own key.
pub proof fn law_numbers_are_keys(n: nat)
    ensures
        designation::catalogue_key(text::trimmed(text::decimal(n))) == Some(text::decimal(n)),
{
    let s = text::decimal(n);
    text::lemma_decimal(n);
    assert(text::is_digit(s[0]) && text::is_digit(s[s.len() - 1]));
    text::lemma_trimmed(s);
}

proof fn lemma_first_index(s: Seq<char>, c: char, from: int, at: int)
    requires
        0 <= from <= at < s.len(),
        s[at] == c,
        forall|k: int| from <= k < at ==> s[k] != c,
    ensures
        designation::first_index(s, c, from) == at,
    decreases at - from,
{
    if from < at {
        lemma_first_index(s, c, from + 1, at);
    }
}

/// A number and its `(number)Name` form reduce to the same key, whatever the name.
pub proof fn law_named_numbers_reduce_to_the_number(n: nat, name: Seq<char>)
    ensures
        designation::catalogue_key(text::trimmed(seq!['('] + text::decimal(n) + seq![')'] + name))
            == Some(text::decimal(n)),
{
    let d = text::decimal(n);
    let p = seq!['('] + d + seq![')'];
    text::lemma_decimal(n);
    text::lemma_trimmed_end_keeps_prefix(p, name);
    let tail = choose|tail: Seq<char>| text::trimmed_end(p + name) == #[trigger] (p + tail);
    let s = p + tail;
    assert((p + name)[0] == '(');
    assert(text::trimmed(p + name) == s);
    assert(s[0] == '(');
    let close = d.len() + 1;
    assert(s[close as int] == ')');
    assert forall|k: int| 1 <= k < close implies s[k] != ')' by {
        assert(s[k] == d[k - 1]);
        assert(text::is_digit(d[k - 1]));
    }
    lemma_first_index(s, ')', 1, close as int);
    assert(s.subrange(1, close as int) == d);
}

proof fn lemma_four_digit_year(year: nat)
    requires
        1000 <= year < 10_000,
    ensures
        text::decimal(year).len() == 4,
{
    reveal_with_fuel(text::decimal, 4);
}

/// A provisional designation that loses its space on the way into an alert leads back
/// to the designation, whatever its letters and its cycle.
pub proof fn law_compact_designations_lead_to_their_key(
    year: nat,
    half_month: char,
    order: char,
    cycle: nat,
)
    requires
        1000 <= year < 10_000,
        text::is_upper(half_month),
        text::is_upper(order),
    ensures
        designation::catalogue_key(
            text::trimmed(compact_provisional(year, half_month, order, cycle)),
        ) == Some(designation::provisional(year, half_month, order, cycle)),
{
    let s = compact_provisional(year, half_month, order, cycle);
    let key = designation::provisional(year, half_month, order, cycle);
    let y = text::decimal(year);
    let count = if cycle == 0 {
        Seq::<char>::empty()
    } else {
        text::decimal(cycle)
    };
    lemma_four_digit_year(year);
    text::lemma_decimal(year);
    text::lemma_decimal(cycle);
    assert(s == y + seq![half_month, order] + count);
    assert(key == y + seq![' ', half_month, order] + count);
    assert(s.take(4) == y);
    assert(s.skip(6) == count);
    assert(s[4] == half_month && s[5] == order);
    assert(text::is_digit(y[0]));
    assert(s[0] == y[0]);
    assert forall|i: int| 0 <= i < s.len() implies #[trigger] s[i] != '/' && !text::is_whitespace(
        s[i],
    ) by {
        if i < 4 {
            assert(s[i] == y[i]);
            assert(text::is_digit(y[i]));
        } else if i >= 6 {
            assert(s[i] == count[i - 6]);
            assert(text::is_digit(count[i - 6]));
        }
    }
    text::lemma_trimmed(s);
    assert(!text::is_digit(s[4]));
    assert(designation::is_compact_provisional(s));
    assert(s.take(4) + seq![' '] + s.skip(4) == key);
}

/// Whatever an alert reports for a provisionally designated object lands on the key
/// that unpacking the object's catalogue entry gives.
pub proof fn law_alert_names_reach_the_unpacked_key(
    year: nat,
    half_month: char,
    order: char,
    cycle: nat,
)
    requires
        1800 <= year < 2100,
        cycle < 620,
        text::is_upper(half_month),
        text::is_upper(order),
    ensures
        designation::catalogue_key(
            text::trimmed(compact_provisional(year, half_month, order, cycle)),
        ) == designation::unpacked(packed_provisional(year, half_month, order, cycle)),
{
    law_compact_designations_lead_to_their_key(year, half_month, order, cycle);
    law_provisional_designations_unpack_to_themselves(year, half_month, order, cycle);
}

/// The same for an object beyond the two-character cycle.
pub proof fn law_alert_names_reach_the_extended_key(year: nat, half_month: char, ordinal: nat)
    requires
        2000 <= year < 2062,
        text::is_upper(half_month),
        designation::EXTENDED_FIRST_ORDINAL <= ordinal < designation::EXTENDED_FIRST_ORDINAL
            + 14_776_336,
    ensures
        designation::catalogue_key(
            text::trimmed(
                compact_provisional(
                    year,
                    half_month,
                    designation::order_letter((ordinal - 1) as nat),
                    ((ordinal - 1) / 25) as nat,
                ),
            ),
        ) == designation::unpacked(packed_extended(year, half_month, ordinal)),
{
    let index = (ordinal - 1) as nat;
    law_order_letters_skip_i(index);
    law_compact_designations_lead_to_their_key(
        year,
        half_month,
        designation::order_letter(index),
        ((ordinal - 1) / 25) as nat,
    );
    law_extended_designations_count_on(year, half_month, ordinal);
}

/// The same for a numbered object, reported by its number alone or with a name.
pub proof fn law_alert_numbers_reach_the_unpacked_key(n: nat, name: Seq<char>)
    requires
        1 <= n < 620_000 + 14_776_336,
    ensures
        designation::catalogue_key(text::trimmed(text::decimal(n))) == designation::unpacked(
            packed_permanent(n),
        ),
        designation::catalogue_key(text::trimmed(seq!['('] + text::decimal(n) + seq![')'] + name))
            == designation::unpacked(packed_permanent(n)),
{
    law_numbers_unpack_to_themselves(n);
    law_numbers_are_keys(n);
    law_named_numbers_reduce_to_the_number(n, name);
}

/// A comet's designation is its own key: one with a slash, and one that ends in an
/// orbit type and has not the shape of a provisional designation.
pub proof fn law_comets_pass_through(s: Seq<char>)
    requires
        s.len() > 0,
        text::trimmed(s) == s,
        s[0] != '(',
        s.contains('/') || (designation::is_orbit_type(s.last())
            && !designation::is_compact_provisional(s)),
    ensures
        designation::catalogue_key(text::trimmed(s)) == Some(s),
{
}

/// A provisional designation is written as its year, a space, the letter of its half-month and
/// its order letter, and behind them its cycle where that is not the first.
pub proof fn law_provisional_designations_are_written_out(
    year: nat,
    half_month: char,
    order: char,
    cycle: nat,
)
    ensures
        ({
            let s = designation::provisional(year, half_month, order, cycle);
            let n = text::decimal(year).len() as int;
            &&& n + 3 <= s.len()
            &&& s.take(n) == text::decimal(year)
            &&& s[n] == ' ' && s[n + 1] == half_month && s[n + 2] == order
            &&& cycle == 0 ==> s.len() == n + 3
            &&& cycle > 0 ==> s.skip(n + 3) == text::decimal(cycle)
        }),
{
    let s = designation::provisional(year, half_month, order, cycle);
    let n = text::decimal(year).len() as int;
    assert(s.take(n) =~= text::decimal(year));
    if cycle > 0 {
        assert(s.skip(n + 3) =~= text::decimal(cycle));
    }
}

/// The order letters run through the alphabet without I, and begin again after twenty-five
/// objects; the extended designations begin where 620 full cycles end.
pub proof fn law_order_letters_follow_the_alphabet(index: nat)
    ensures
        index % 25 < 8 ==> designation::order_letter(index) as int == 'A' as int + index % 25,
        index % 25 >= 8 ==> designation::order_letter(index) as int == 'A' as int + index % 25 + 1,
        designation::EXTENDED_FIRST_ORDINAL == 620 * 25 + 1,
{
    reveal_strlit("ABCDEFGHJKLMNOPQRSTUVWXYZ");
    let k = index % 25;
    assert(k < 25);
    let letters = designation::ORDER_LETTERS@;
    assert(designation::order_letter(index) == letters[k as int]);
}

/// The designations of the Palomar-Leiden survey and of the three Trojan surveys unpack to
/// their number and the name of the survey.
pub proof fn law_survey_designations_unpack_to_their_survey(n: nat)
    requires
        1 <= n < 10_000,
    ensures
        designation::unpacked(seq!['P', 'L', 'S'] + zero_padded(n, 4)) == Some(
            text::decimal(n) + seq![' ', 'P', '-', 'L'],
        ),
        designation::unpacked(seq!['T', '1', 'S'] + zero_padded(n, 4)) == Some(
            text::decimal(n) + seq![' ', 'T', '-', '1'],
        ),
        designation::unpacked(seq!['T', '2', 'S'] + zero_padded(n, 4)) == Some(
            text::decimal(n) + seq![' ', 'T', '-', '2'],
        ),
        designation::unpacked(seq!['T', '3', 'S'] + zero_padded(n, 4)) == Some(
            text::decimal(n) + seq![' ', 'T', '-', '3'],
        ),
{
    reveal_strlit("PLS");
    reveal_strlit("T1S");
    reveal_strlit("T2S");
    reveal_strlit("T3S");
    reveal_strlit("P-L");
    reveal_strlit("T-1");
    reveal_strlit("T-2");
    reveal_strlit("T-3");
    assert("PLS"@[1] == 'L' && "T1S"@[1] == '1' && "T2S"@[1] == '2' && "T3S"@[1] == '3');
    lemma_survey(n, seq!['P', 'L', 'S'], "PLS"@, "P-L"@, seq![' ', 'P', '-', 'L']);
    lemma_survey(n, seq!['T', '1', 'S'], "T1S"@, "T-1"@, seq![' ', 'T', '-', '1']);
    lemma_survey(n, seq!['T', '2', 'S'], "T2S"@, "T-2"@, seq![' ', 'T', '-', '2']);
    lemma_survey(n, seq!['T', '3', 'S'], "T3S"@, "T-3"@, seq![' ', 'T', '-', '3']);
}

proof fn lemma_survey(
    n: nat,
    prefix: Seq<char>,
    literal: Seq<char>,
    name: Seq<char>,
    behind: Seq<char>,
)
    requires
        1 <= n < 10_000,
        prefix.len() == 3,
        prefix[0] == 'P' || prefix[0] == 'T',
        prefix =~= literal,
        designation::survey_name(literal) == Some(name),
        behind =~= seq![' '] + name,
    ensures
        designation::unpacked(prefix + zero_padded(n, 4)) == Some(text::decimal(n) + behind),
{
    lemma_zero_padded(n, 4);
    text::lemma_decimal(n);
    let s = prefix + zero_padded(n, 4);
    assert(s.take(3) =~= literal);
    assert(s.subrange(3, 7) =~= zero_padded(n, 4));
    assert(s[0] == prefix[0]);
    assert(text::decimal(n) + seq![' '] + name =~= text::decimal(n) + behind);
}

/// Nothing else unpacks: a number has five characters, of which the last four are digits, or
/// packed characters behind a tilde; any other designation has seven, and is an extended one, one
/// of a survey, or one that begins with the letter of its century and two digits.
pub proof fn law_only_packed_forms_unpack(s: Seq<char>)
    requires
        designation::unpacked(s) is Some,
    ensures
        s.len() == 5 || s.len() == 7,
        s.len() == 5 && s[0] != '~' ==> designation::packed_number(s[0]) is Some
            && designation::unsigned(s.skip(1)) is Some,
        s.len() == 5 && s[0] == '~' ==> designation::base62(s.skip(1)) is Some,
        s.len() == 7 && s[0] == '_' ==> designation::packed_number(s[1]) is Some
            && designation::base62(s.subrange(3, 7)) is Some,
        s.len() == 7 && s[0] != '_' && designation::survey_name(s.take(3)) is None ==> {
            &&& s[0] == 'I' || s[0] == 'J' || s[0] == 'K'
            &&& text::is_digit(s[1]) && text::is_digit(s[2]) && text::is_digit(s[5])
            &&& designation::packed_number(s[4]) is Some
        },
        s.len() == 7 && designation::survey_name(s.take(3)) is Some ==> s[2] == 'S' && (s[0] == 'P'
            && s[1] == 'L' || s[0] == 'T' && '1' <= s[1] <= '3'),
{
    reveal_strlit("PLS");
    reveal_strlit("T1S");
    reveal_strlit("T2S");
    reveal_strlit("T3S");
    if s.len() == 7 && designation::survey_name(s.take(3)) is Some {
        let p = s.take(3);
        assert(p[0] == s[0] && p[1] == s[1] && p[2] == s[2]);
    }
    if s.len() == 5 && s[0] != '~' && text::all_digits(s) {
        let rest = s.skip(1);
        assert(text::is_digit(s[0]));
        assert(rest[0] == s[1] && text::is_digit(s[1]));
        assert forall|i: int| 0 <= i < rest.len() implies text::is_digit(#[trigger] rest[i]) by {
            assert(rest[i] == s[i + 1]);
            assert(text::is_digit(s[i + 1]));
        }
    }
}

/// A number that packed characters write counts sixty-two times for each character behind.
pub proof fn law_packed_characters_count_by_their_place(s: Seq<char>, c: char)
    requires
        designation::base62(s) is Some,
        designation::packed_number(c) is Some,
    ensures
        designation::base62(s.push(c)) == Some(
            designation::base62(s)->0 * 62 + designation::packed_number(c)->0,
        ),
        designation::base62(Seq::empty()) == Some(0nat),
{
    assert(s.push(c).drop_last() =~= s);
}

/// A name has no key unless it is a number, a number in parentheses in front of it, a
/// provisional designation without its space, or a comet: one with a slash, or one that ends in
/// one of five letters.
pub proof fn law_other_names_have_no_key(s: Seq<char>)
    ensures
        designation::catalogue_key(Seq::empty()) is None,
        s.len() > 0 && s[0] != '(' && !text::all_digits(s) && !s.contains('/')
            && !designation::is_compact_provisional(s) && s.last() != 'P' && s.last() != 'C'
            && s.last() != 'D' && s.last() != 'X' && s.last() != 'I'
            ==> designation::catalogue_key(s) is None,
        s.len() > 0 && s[0] == '(' && !s.contains(')') ==> designation::catalogue_key(s) is None,
        designation::is_compact_provisional(s) ==> s.len() >= 6 && text::is_digit(s[0])
            && text::is_digit(s[3]) && 'A' <= s[4] <= 'Z' && 'A' <= s[5] <= 'Z',
{
    if s.len() > 0 && s[0] == '(' && !s.contains(')') {
        lemma_no_index(s, ')', 1);
    }
    if designation::is_compact_provisional(s) {
        assert(s.take(4)[0] == s[0] && s.take(4)[3] == s[3]);
    }
}

proof fn lemma_no_index(s: Seq<char>, c: char, from: int)
    requires
        0 <= from <= s.len(),
        !s.contains(c),
    ensures
        designation::first_index(s, c, from) == s.len(),
    decreases s.len() - from,
{
    if from < s.len() {
        assert(s[from] != c);
        lemma_no_index(s, c, from + 1);
    }
}

} // verus!

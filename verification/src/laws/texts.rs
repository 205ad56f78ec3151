//! What holds of numbers and words as text.

use vstd::prelude::*;

use crate::text;
use crate::text::Separator;

verus! {

/// The number that decimal digits stand for.
pub open spec fn decimal_value(digits: Seq<char>) -> int
    decreases digits.len(),
{
    if digits.len() == 0 {
        0
    } else {
        10 * decimal_value(digits.drop_last()) + (digits.last() as int - 48)
    }
}

/// A number is written in decimal digits that stand for it, without a zero at
/// the front unless it is zero.
pub proof fn numbers_are_written_in_decimal(n: nat)
    ensures
        decimal_value(text::decimal(n)) == n,
        text::decimal(n).len() > 0,
        forall|i: int|
            0 <= i < text::decimal(n).len() ==> '0' <= #[trigger] text::decimal(n)[i] <= '9',
        n > 0 ==> text::decimal(n)[0] != '0',
        n == 0 ==> text::decimal(n) == seq!['0'],
    decreases n,
{
    let digits = text::decimal(n);
    if n < 10 {
        assert(digits.drop_last() =~= Seq::empty());
        assert(digits.last() as int == 48 + n);
        assert(decimal_value(digits.drop_last()) == 0);
    } else {
        numbers_are_written_in_decimal(n / 10);
        assert(digits.drop_last() =~= text::decimal(n / 10));
        assert(digits.last() as int == 48 + n % 10);
    }
}

/// A negative number is written with a minus sign, an optional one in `Some`.
pub proof fn signs_and_options_are_written(n: nat, code: i32, pid: u32)
    ensures
        text::signed_decimal(n as int) == text::decimal(n),
        n > 0 ==> text::signed_decimal(-(n as int)) == seq!['-'] + text::decimal(n),
        text::optional_code(None) == "None"@,
        text::optional_code(Some(code)) == "Some("@ + text::signed_decimal(code as int) + ")"@,
        text::optional_pid(None) == "None"@,
        text::optional_pid(Some(pid)) == "Some("@ + text::decimal(pid as nat) + ")"@,
{
}

/// Digits are padded with zeros in front up to the width, and are otherwise as
/// they were; more digits than that stay as they are.
pub proof fn padding_is_zeros_in_front(digits: Seq<char>, width: nat)
    ensures
        ({
            let padded = text::zero_padded(digits, width);
            &&& digits.len() >= width ==> padded == digits
            &&& digits.len() < width ==> padded.len() == width && padded.skip(
                width - digits.len(),
            ) == digits && forall|i: int|
                0 <= i < width - digits.len() ==> #[trigger] padded[i] == '0'
        }),
{
    let padded = text::zero_padded(digits, width);
    if digits.len() < width {
        assert(padded.skip(width - digits.len()) =~= digits);
    }
}

/// A year is written with at least four characters, a negative one with a minus
/// sign among them.
pub proof fn years_have_four_characters(year: int)
    ensures
        year >= 0 ==> text::year_digits(year) == text::zero_padded(
            text::decimal(year as nat),
            4,
        ),
        year < 0 ==> text::year_digits(year) == seq!['-'] + text::zero_padded(
            text::decimal((-year) as nat),
            3,
        ),
{
}

/// The value of a lower-case hexadecimal digit.
pub open spec fn hex_digit_value(c: char) -> int {
    if c <= '9' {
        c as int - 48
    } else {
        c as int - 87
    }
}

/// The number that lower-case hexadecimal digits stand for.
pub open spec fn hex_value(digits: Seq<char>) -> int
    decreases digits.len(),
{
    if digits.len() == 0 {
        0
    } else {
        16 * hex_value(digits.drop_last()) + hex_digit_value(digits.last())
    }
}

/// The hash of a number of 28 bits is its seven hexadecimal digits, in small
/// letters.
pub proof fn hashes_are_numbers_in_hexadecimal(n: nat)
    requires
        n <= 0x0fff_ffff,
    ensures
        hex_value(text::hex7(n)) == n,
        text::hex7(n).len() == 7,
        forall|i: int|
            #![trigger text::hex7(n)[i]]
            0 <= i < 7 ==> ('0' <= text::hex7(n)[i] <= '9' || 'a' <= text::hex7(n)[i] <= 'f'),
        text::is_hash(text::hex7(n)),
{
    assert(vstd::arithmetic::power::pow(16, 7) == 0x1000_0000) by {
        reveal_with_fuel(vstd::arithmetic::power::pow, 8);
    }
    lemma_hex_value(n, 7);
}

proof fn lemma_hex_value(n: nat, width: nat)
    requires
        n < vstd::arithmetic::power::pow(16, width),
    ensures
        hex_value(text::hex_digits(n, width)) == n,
        text::hex_digits(n, width).len() == width,
        forall|i: int|
            #![trigger text::hex_digits(n, width)[i]]
            0 <= i < width ==> ('0' <= text::hex_digits(n, width)[i] <= '9' || 'a'
                <= text::hex_digits(n, width)[i] <= 'f'),
    decreases width,
{
    reveal(vstd::arithmetic::power::pow);
    if width > 0 {
        let w = (width - 1) as nat;
        assert(vstd::arithmetic::power::pow(16, width) == 16 * vstd::arithmetic::power::pow(16, w));
        lemma_hex_value(n / 16, w);
        let digits = text::hex_digits(n, width);
        assert(digits.drop_last() =~= text::hex_digits(n / 16, w));
        let d = n % 16;
        assert(digits.last() == text::hex_char(d));
        assert(hex_digit_value(text::hex_char(d)) == d);
    }
}

/// A text has the form of a hash where it is seven characters, each of them a
/// decimal digit or a small letter up to `f`.
pub proof fn hashes_have_seven_digits(s: Seq<char>)
    ensures
        text::is_hash(s) <==> s.len() == 7 && forall|i: int|
            #![trigger s[i]]
            0 <= i < 7 ==> ('0' <= s[i] <= '9' || 'a' <= s[i] <= 'f'),
{
    if s.len() == 7 && forall|i: int|
        #![trigger s[i]]
        0 <= i < 7 ==> ('0' <= s[i] <= '9' || 'a' <= s[i] <= 'f') {
        assert forall|i: int| 0 <= i < 7 implies text::is_hex_char(#[trigger] s[i]) by {
        }
    }
}

/// White space is what Unicode calls so.
pub proof fn white_space_is_that_of_unicode(c: char)
    ensures
        ({
            let n = c as u32;
            text::is_white(c) <==> 9 <= n <= 13 || n == 32 || n == 0x85 || n == 0xa0 || n == 0x1680
                || 0x2000 <= n <= 0x200a || n == 0x2028 || n == 0x2029 || n == 0x202f || n == 0x205f
                || n == 0x3000
        }),
        Separator::White.separates(c) <==> text::is_white(c),
        Separator::Slash.separates(c) <==> c == '/',
{
}

/// A text without separators is its own only field, unless it is empty; the
/// fields of two texts with a separator between them are those of the one and
/// then those of the other.
pub proof fn fields_stand_between_separators(
    a: Seq<char>,
    b: Seq<char>,
    c: char,
    sep: Separator,
    word: Seq<char>,
)
    requires
        sep.separates(c),
        forall|i: int| 0 <= i < word.len() ==> !sep.separates(#[trigger] word[i]),
    ensures
        word.len() == 0 ==> text::fields(word, sep) == Seq::<Seq<char>>::empty(),
        word.len() > 0 ==> text::fields(word, sep) == seq![word],
        text::fields(a + seq![c] + b, sep) == text::fields(a, sep) + text::fields(b, sep),
{
    text::lemma_fields_concat(a, c, b, sep);
    assert(a.push(c) + b =~= a + seq![c] + b);
    if word.len() > 0 {
        lemma_whole_field(word, sep);
        assert(!sep.separates(word[0]));
        assert(word.take(word.len() as int) =~= word);
        assert(word.skip(word.len() as int) =~= Seq::empty());
        assert(text::fields(Seq::<char>::empty(), sep) =~= Seq::empty());
        assert(text::fields(word, sep) =~= seq![word]);
    }
}

proof fn lemma_whole_field(word: Seq<char>, sep: Separator)
    requires
        forall|i: int| 0 <= i < word.len() ==> !sep.separates(#[trigger] word[i]),
    ensures
        text::field_len(word, sep) == word.len(),
    decreases word.len(),
{
    if word.len() > 0 {
        let rest = word.drop_first();
        assert forall|i: int| 0 <= i < rest.len() implies !sep.separates(#[trigger] rest[i]) by {
            assert(rest[i] == word[i + 1]);
        }
        assert(!sep.separates(word[0]));
        lemma_whole_field(rest, sep);
    }
}

/// A trimmed text neither starts nor ends with white space, and only white
/// space was taken away, at its start and at its end.
pub proof fn trimming_takes_white_space_away(s: Seq<char>)
    ensures
        ({
            let kept = text::trim(s);
            &&& kept.len() > 0 ==> !text::is_white(kept[0]) && !text::is_white(kept.last())
            &&& exists|i: int, j: int|
                0 <= i <= j <= s.len() && kept == #[trigger] s.subrange(i, j) && (forall|k: int|
                    0 <= k < i ==> text::is_white(#[trigger] s[k])) && (forall|k: int|
                    j <= k < s.len() ==> text::is_white(#[trigger] s[k]))
        }),
{
    let i = lemma_trim_start(s);
    let rest = s.skip(i);
    let n = lemma_trim_end(rest);
    let kept = rest.take(n);
    assert(kept =~= s.subrange(i, i + n));
    assert forall|k: int| i + n <= k < s.len() implies text::is_white(#[trigger] s[k]) by {
        assert(rest[k - i] == s[k]);
    }
    if kept.len() > 0 {
        assert(kept[0] == rest[0]);
    }
    assert(text::trim(s) == s.subrange(i, i + n));
}

proof fn lemma_trim_start(s: Seq<char>) -> (i: int)
    ensures
        0 <= i <= s.len(),
        text::trim_start(s) == s.skip(i),
        forall|k: int| 0 <= k < i ==> text::is_white(#[trigger] s[k]),
        i < s.len() ==> !text::is_white(s[i]),
    decreases s.len(),
{
    if s.len() > 0 && text::is_white(s[0]) {
        let rest = s.drop_first();
        let j = lemma_trim_start(rest);
        assert(rest.skip(j) =~= s.skip(j + 1));
        assert forall|k: int| 0 <= k < j + 1 implies text::is_white(#[trigger] s[k]) by {
            if k > 0 {
                assert(rest[k - 1] == s[k]);
            }
        }
        j + 1
    } else {
        assert(s.skip(0) =~= s);
        0
    }
}

proof fn lemma_trim_end(s: Seq<char>) -> (n: int)
    ensures
        0 <= n <= s.len(),
        text::trim_end(s) == s.take(n),
        forall|k: int| n <= k < s.len() ==> text::is_white(#[trigger] s[k]),
        n > 0 ==> !text::is_white(s[n - 1]),
    decreases s.len(),
{
    if s.len() > 0 && text::is_white(s.last()) {
        let rest = s.drop_last();
        let n = lemma_trim_end(rest);
        assert(rest.take(n) =~= s.take(n));
        assert forall|k: int| n <= k < s.len() implies text::is_white(#[trigger] s[k]) by {
            if k < rest.len() {
                assert(rest[k] == s[k]);
            }
        }
        n
    } else {
        assert(s.take(s.len() as int) =~= s);
        s.len() as int
    }
}

/// Texts are ordered by the first character in which they differ, and a text
/// comes before the longer ones that start with it.
pub proof fn texts_are_ordered_by_the_first_difference(
    start: Seq<char>,
    a: char,
    b: char,
    x: Seq<char>,
    y: Seq<char>,
)
    requires
        a < b,
    ensures
        text::text_lt(start + seq![a] + x, start + seq![b] + y),
        !text::text_lt(start + seq![b] + y, start + seq![a] + x),
        text::text_lt(start, start + seq![a] + x),
        !text::text_lt(start + seq![a] + x, start),
    decreases start.len(),
{
    let p = start + seq![a] + x;
    let q = start + seq![b] + y;
    if start.len() > 0 {
        let rest = start.drop_first();
        texts_are_ordered_by_the_first_difference(rest, a, b, x, y);
        assert(p.drop_first() =~= rest + seq![a] + x);
        assert(q.drop_first() =~= rest + seq![b] + y);
    }
}

/// A character in capitals or in small letters is the same letter, where it is
/// one of ASCII, and else the same character.
pub proof fn letters_change_their_case_only(c: char)
    ensures
        'a' <= c <= 'z' ==> text::ascii_upper(c) as u32 == c as u32 - 32,
        !('a' <= c <= 'z') ==> text::ascii_upper(c) == c,
        'A' <= c <= 'Z' ==> text::ascii_lower(c) as u32 == c as u32 + 32,
        !('A' <= c <= 'Z') ==> text::ascii_lower(c) == c,
{
}

} // verus!

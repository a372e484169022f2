//! Comparing and reading text.

use vstd::prelude::*;
use vstd::utf8::encode_utf8_decode_utf8;

verus! {

/// Whether two stretches of bytes are the same.
pub fn bytes_eq(left: &[u8], right: &[u8]) -> (same: bool)
    ensures
        same == (left@ == right@),
{
    if left.len() != right.len() {
        return false;
    }
    let mut i: usize = 0;
    while i < left.len()
        invariant
            i <= left@.len() == right@.len(),
            left@.take(i as int) == right@.take(i as int),
        decreases left@.len() - i,
    {
        if left[i] != right[i] {
            assert(left@[i as int] != right@[i as int]);
            return false;
        }
        assert(left@.take(i + 1) =~= left@.take(i as int).push(left@[i as int]));
        assert(right@.take(i + 1) =~= right@.take(i as int).push(right@[i as int]));
        i = i + 1;
    }
    assert(left@.take(i as int) =~= left@);
    assert(right@.take(i as int) =~= right@);
    true
}

/// Whether two texts are the same.
pub fn str_eq(left: &str, right: &str) -> (same: bool)
    ensures
        same == (left@ == right@),
{
    proof {
        encode_utf8_decode_utf8(left@);
        encode_utf8_decode_utf8(right@);
    }
    bytes_eq(left.as_bytes(), right.as_bytes())
}

/// Whether every character is a decimal digit.
pub open spec fn all_digits(text: Seq<char>) -> bool {
    forall|i: int| 0 <= i < text.len() ==> '0' <= #[trigger] text[i] <= '9'
}

/// The number that decimal digits write.
pub open spec fn decimal_value(digits: Seq<char>) -> nat
    decreases digits.len(),
{
    if digits.len() == 0 {
        0
    } else {
        10 * decimal_value(digits.drop_last()) + (digits.last() as nat - '0' as nat) as nat
    }
}

/// The digits of a number that may begin with a plus sign.
pub open spec fn unsigned_digits(text: Seq<char>) -> Seq<char> {
    if text.len() > 0 && text[0] == '+' {
        text.skip(1)
    } else {
        text
    }
}

/// The number that a text writes: an optional plus sign and then decimal digits, at least
/// one and no other character, for a number that a `usize` can hold.
pub open spec fn usize_of(text: Seq<char>) -> Option<usize> {
    let digits = unsigned_digits(text);
    if digits.len() > 0 && all_digits(digits) && decimal_value(digits) <= usize::MAX {
        Some(decimal_value(digits) as usize)
    } else {
        None
    }
}

/// More digits make no smaller number.
proof fn lemma_prefix_is_no_larger(digits: Seq<char>, n: int)
    requires
        0 <= n <= digits.len(),
    ensures
        decimal_value(digits.take(n)) <= decimal_value(digits),
    decreases digits.len() - n,
{
    if n < digits.len() {
        lemma_prefix_is_no_larger(digits, n + 1);
        assert(digits.take(n + 1).drop_last() =~= digits.take(n));
    } else {
        assert(digits.take(n) =~= digits);
    }
}

/// Reads the number that a text writes.
pub fn parse_usize(text: &str) -> (number: Option<usize>)
    ensures
        number == usize_of(text@),
{
    if !text.is_ascii() {
        proof {
            let digits = unsigned_digits(text@);
            if all_digits(digits) {
                assert forall|i: int| 0 <= i < text@.len() implies '\0' <= #[trigger] text@[i] <= '\u{7f}' by {
                    if text@[0] == '+' && i > 0 {
                        assert(digits[i - 1] == text@[i]);
                    }
                }
                assert(vstd::utf8::is_ascii_chars(text@));
            }
        }
        return None;
    }
    let bytes: &[u8] = text.as_bytes();
    proof {
        vstd::utf8::is_ascii_chars_encode_utf8(text@);
    }
    assert(forall|j: int| 0 <= j < text@.len() ==> #[trigger] bytes@[j] as int == text@[j] as int);
    let start: usize = if bytes.len() > 0 && bytes[0] == 43 {
        1
    } else {
        0
    };
    let ghost digits = unsigned_digits(text@);
    assert(digits =~= text@.skip(start as int));
    if start == bytes.len() {
        return None;
    }
    let mut value: usize = 0;
    let mut i: usize = start;
    while i < bytes.len()
        invariant
            start <= i <= bytes@.len(),
            bytes@.len() == text@.len(),
            forall|j: int| 0 <= j < text@.len() ==> #[trigger] bytes@[j] as int == text@[j] as int,
            digits == text@.skip(start as int),
            digits == unsigned_digits(text@),
            digits.len() > 0,
            all_digits(digits.take(i - start)),
            value == decimal_value(digits.take(i - start)),
        decreases bytes@.len() - i,
    {
        let byte: u8 = bytes[i];
        assert(digits[i - start] == text@[i as int]);
        if byte < 48 || byte > 57 {
            return None;
        }
        let digit: usize = (byte - 48) as usize;
        proof {
            assert(digits.take(i + 1 - start).drop_last() =~= digits.take(i - start));
            assert(digits.take(i + 1 - start).last() == text@[i as int]);
            assert(decimal_value(digits.take(i + 1 - start)) == 10 * value + digit);
            lemma_prefix_is_no_larger(digits, i + 1 - start);
        }
        if value > (usize::MAX - digit) / 10 {
            return None;
        }
        value = value * 10 + digit;
        i = i + 1;
    }
    assert(digits.take(i - start) =~= digits);
    Some(value)
}

/// Law: a number is read digit by digit. A digit behind a number makes it ten times as large
/// and adds itself, as long as that can be held; a digit alone, or behind nothing but a plus
/// sign, is the number; any other character at the end makes the text no number, and no
/// digit behind a text that is none makes it one. Nothing at all is no number.
pub proof fn law_digit_by_digit(text: Seq<char>, c: char)
    ensures
        usize_of(Seq::empty()) is None,
        !('0' <= c <= '9') ==> usize_of(text.push(c)) is None,
        '0' <= c <= '9' ==> ({
            let digit = c as int - '0' as int;
            match usize_of(text) {
                Some(value) => if 10 * value + digit <= usize::MAX {
                    usize_of(text.push(c)) is Some && usize_of(text.push(c))->0 == 10 * value
                        + digit
                } else {
                    usize_of(text.push(c)) is None
                },
                None => if text.len() == 0 || text == seq!['+'] {
                    usize_of(text.push(c)) is Some && usize_of(text.push(c))->0 == digit
                } else {
                    usize_of(text.push(c)) is None
                },
            }
        }),
{
    let longer = text.push(c);
    let digits = unsigned_digits(text);
    assert(longer.last() == c);
    if text.len() > 0 {
        assert(unsigned_digits(longer) =~= digits.push(c));
        assert(digits.push(c).drop_last() =~= digits);
        assert(digits.push(c)[digits.len() as int] == c);
        if all_digits(digits.push(c)) {
            assert forall|i: int| 0 <= i < digits.len() implies '0' <= #[trigger] digits[i]
                <= '9' by {
                assert(digits.push(c)[i] == digits[i]);
            }
        }
        if digits.len() == 0 {
            assert(text =~= seq!['+']);
        }
    } else if '0' <= c <= '9' {
        assert(longer[0] == c);
        assert(unsigned_digits(longer) =~= longer);
        assert(longer.drop_last() =~= Seq::empty());
    } else {
        assert(longer[0] == c);
        if c != '+' {
            assert(unsigned_digits(longer) =~= longer);
        }
    }
}

/// The digits of a number, without needless zeros before them.
pub open spec fn digits_of(n: nat) -> Seq<char>
    decreases n,
{
    if n < 10 {
        seq![('0' as nat + n) as char]
    } else {
        digits_of(n / 10).push(('0' as nat + n % 10) as char)
    }
}

/// Law: every number that can be held is read out of its digits, with a plus sign before
/// them too.
pub proof fn law_written_numbers_are_read(n: usize)
    ensures
        usize_of(digits_of(n as nat)) == Some(n),
        usize_of(seq!['+'] + digits_of(n as nat)) == Some(n),
        all_digits(digits_of(n as nat)),
    decreases n,
{
    if n < 10 {
        let c = ('0' as nat + n as nat) as char;
        law_digit_by_digit(Seq::empty(), c);
        law_digit_by_digit(seq!['+'], c);
        assert(Seq::<char>::empty().push(c) =~= digits_of(n as nat));
        assert(seq!['+'].push(c) =~= seq!['+'] + digits_of(n as nat));
        assert(unsigned_digits(seq!['+']) =~= Seq::empty());
        assert(unsigned_digits(Seq::<char>::empty()) =~= Seq::empty());
    } else {
        let c = ('0' as nat + n as nat % 10) as char;
        let rest = (n / 10) as nat;
        law_written_numbers_are_read((n / 10) as usize);
        law_digit_by_digit(digits_of(rest), c);
        law_digit_by_digit(seq!['+'] + digits_of(rest), c);
        assert((seq!['+'] + digits_of(rest)).push(c) =~= seq!['+'] + digits_of(n as nat));
    }
}

} // verus!

//! Decimal numbers.

use vstd::prelude::*;
use vstd::string::*;

verus! {

/// `c` is one of the digits from 0 to 9.
pub open spec fn is_digit(c: char) -> bool {
    '0' <= c <= '9'
}

/// The number that a digit stands for.
pub open spec fn digit_value(c: char) -> int {
    c as int - '0' as int
}

/// The number that `digits` write, the most significant one first.
pub open spec fn digits_value(digits: Seq<char>) -> int
    decreases digits.len(),
{
    if digits.len() == 0 {
        0
    } else {
        digits_value(digits.drop_last()) * 10 + digit_value(digits.last())
    }
}

/// `text` without a leading plus sign.
pub open spec fn unsigned_part(text: Seq<char>) -> Seq<char> {
    if text.len() > 0 && text[0] == '+' {
        text.skip(1)
    } else {
        text
    }
}

/// The number that `text` writes: digits, possibly after a plus sign, and
/// nothing else. `None` if it is written otherwise or does not fit.
pub open spec fn decimal_value(text: Seq<char>) -> Option<usize> {
    let digits = unsigned_part(text);
    if digits.len() > 0 && (forall|i: int| 0 <= i < digits.len() ==> is_digit(digits[i]))
        && digits_value(digits) <= usize::MAX {
        Some(digits_value(digits) as usize)
    } else {
        None
    }
}

/// Leading digits write a number that is not greater, and none is negative.
proof fn lemma_prefix_value(digits: Seq<char>, len: int)
    requires
        0 <= len <= digits.len(),
        forall|i: int| 0 <= i < digits.len() ==> is_digit(digits[i]),
    ensures
        0 <= digits_value(digits.take(len)) <= digits_value(digits),
    decreases digits.len(),
{
    if len == digits.len() {
        assert(digits.take(len) =~= digits);
        if digits.len() > 0 {
            assert(digits.drop_last() =~= digits.drop_last().take(len - 1));
            lemma_prefix_value(digits.drop_last(), len - 1);
        }
    } else {
        assert(digits.take(len) =~= digits.drop_last().take(len));
        lemma_prefix_value(digits.drop_last(), len);
    }
}

/// Reads a decimal number.
pub(crate) fn parse_decimal(text: &str) -> (number: Option<usize>)
    ensures
        number == decimal_value(text@),
{
    let len: usize = text.unicode_len();
    let start: usize = if len > 0 && text.get_char(0) == '+' {
        1
    } else {
        0
    };
    let ghost digits = unsigned_part(text@);
    assert(digits =~= text@.skip(start as int));
    if start == len {
        return None;
    }
    let mut next: usize = start;
    let mut value: usize = 0;
    while next < len
        invariant
            start <= next <= len == text@.len(),
            digits == text@.skip(start as int),
            digits == unsigned_part(text@),
            forall|i: int| 0 <= i < next - start ==> is_digit(digits[i]),
            value == digits_value(digits.take(next - start)),
        decreases len - next,
    {
        let c: char = text.get_char(next);
        assert(c == digits[next - start]);
        if !('0' <= c && c <= '9') {
            return None;
        }
        let digit: usize = (c as u32 - '0' as u32) as usize;
        proof {
            let longer = digits.take(next - start + 1);
            assert(longer.drop_last() =~= digits.take(next - start));
            if forall|i: int| 0 <= i < digits.len() ==> is_digit(digits[i]) {
                lemma_prefix_value(digits, next - start + 1);
            }
        }
        if value > usize::MAX / 10 || digit > usize::MAX - value * 10 {
            return None;
        }
        value = value * 10 + digit;
        next += 1;
    }
    assert(digits.take(next - start) =~= digits);
    Some(value)
}

/// The digit that stands for `value`.
pub open spec fn digit(value: nat) -> char {
    ('0' as nat + value) as char
}

/// The digits of `number`.
pub open spec fn decimal_text(number: nat) -> Seq<char>
    decreases number,
{
    if number < 10 {
        seq![digit(number)]
    } else {
        decimal_text(number / 10).push(digit(number % 10))
    }
}

/// The digits of a number are digits, and they write that number.
proof fn lemma_decimal_text(number: nat)
    ensures
        decimal_text(number).len() > 0,
        forall|i: int| 0 <= i < decimal_text(number).len() ==> is_digit(decimal_text(number)[i]),
        digits_value(decimal_text(number)) == number,
    decreases number,
{
    let text = decimal_text(number);
    if number < 10 {
        assert(text.drop_last() =~= Seq::<char>::empty());
        assert(digits_value(text.drop_last()) == 0);
    } else {
        lemma_decimal_text(number / 10);
        assert(text.drop_last() =~= decimal_text(number / 10));
    }
}

/// Reading a number that was written down in digits gives the number back.
pub proof fn law_written_numbers_are_read_back(number: usize)
    ensures
        decimal_value(decimal_text(number as nat)) == Some(number),
{
    lemma_decimal_text(number as nat);
}

/// A number is read digit by digit: a digit alone is its own value, and one more
/// digit makes ten times the number and that digit, as long as it fits.
pub proof fn law_numbers_are_read_digit_by_digit(text: Seq<char>, c: char)
    requires
        '0' <= c <= '9',
    ensures
        decimal_value(seq![c]) == Some((c as int - '0' as int) as usize),
        decimal_value(text) matches Some(number) ==> {
            let longer = number * 10 + (c as int - '0' as int);
            &&& longer <= usize::MAX ==> decimal_value(text.push(c)) == Some(longer as usize)
            &&& longer > usize::MAX ==> decimal_value(text.push(c)) is None
        },
{
    assert(seq![c].drop_last() =~= Seq::<char>::empty());
    assert(digits_value(seq![c].drop_last()) == 0);
    if decimal_value(text) is Some {
        let digits = unsigned_part(text);
        assert(unsigned_part(text.push(c)) =~= digits.push(c));
        assert(digits.push(c).drop_last() =~= digits);
        lemma_prefix_value(digits, 0);
    }
}

/// Only digits are read, at least one of them, after at most one plus sign,
/// which changes nothing; and a number that is too large stays so with more
/// digits.
pub proof fn law_only_digits_are_read(text: Seq<char>, index: int, c: char)
    ensures
        decimal_value(Seq::empty()) is None,
        decimal_value(seq!['+']) is None,
        text.len() > 0 && text[0] != '+' ==> decimal_value(seq!['+'] + text) == decimal_value(text),
        1 <= index < text.len() && !('0' <= text[index] <= '9') ==> decimal_value(text) is None,
        text.len() > 0 && text[0] != '+' && !('0' <= text[0] <= '9') ==> decimal_value(
            text,
        ) is None,
        text.len() > 0 && text != seq!['+'] && decimal_value(text) is None ==> decimal_value(
            text.push(c),
        ) is None,
{
    let digits = unsigned_part(text);
    assert(unsigned_part(seq!['+']) =~= Seq::<char>::empty());
    assert((seq!['+'] + text).skip(1) =~= text);
    assert(1 <= index < text.len() && text[0] == '+' ==> digits[index - 1] == text[index]);
    if text.len() > 0 && text != seq!['+'] && decimal_value(text) is None {
        assert(unsigned_part(text.push(c)) =~= digits.push(c));
        assert(digits.push(c).drop_last() =~= digits);
        if digits.len() == 0 {
            assert(text =~= seq!['+']);
        }
        if forall|i: int| 0 <= i < digits.push(c).len() ==> is_digit(digits.push(c)[i]) {
            assert forall|i: int| 0 <= i < digits.len() implies is_digit(digits[i]) by {
                assert(digits.push(c)[i] == digits[i]);
            }
            assert(is_digit(digits.push(c)[digits.len() as int]));
            lemma_prefix_value(digits, 0);
        }
    }
}

} // verus!

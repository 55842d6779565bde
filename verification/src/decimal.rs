//! Array positions in decimal notation.
use vstd::prelude::*;

use crate::text::chars_of;

verus! {

/// Whether `ch` is one of `0` to `9`.
pub open spec fn is_digit(ch: char) -> bool {
    '0' <= ch <= '9'
}

/// The digit that stands for `value`.
pub open spec fn digit(value: nat) -> char
    recommends
        value < 10,
{
    ('0' as nat + value) as char
}

/// The decimal notation of `value`, without leading zeros.
pub open spec fn decimal(value: nat) -> Seq<char>
    decreases value,
{
    if value < 10 {
        seq![digit(value)]
    } else {
        decimal(value / 10).push(digit(value % 10))
    }
}

/// The number that a run of digits denotes.
pub open spec fn digits_value(digits: Seq<char>) -> nat
    decreases digits.len(),
{
    if digits.len() == 0 {
        0
    } else {
        digits_value(digits.drop_last()) * 10 + (digits.last() as nat - '0' as nat) as nat
    }
}

/// The digits of a number that may carry a plus sign.
pub open spec fn unsigned_digits(text: Seq<char>) -> Seq<char> {
    if text.len() > 0 && text[0] == '+' {
        text.skip(1)
    } else {
        text
    }
}

/// The array position that `text` denotes: an optional plus sign, then one or more digits whose
/// value fits a `usize`.
pub open spec fn position_of(text: Seq<char>) -> Option<usize> {
    let digits = unsigned_digits(text);
    if digits.len() > 0 && (forall|i: int| 0 <= i < digits.len() ==> is_digit(#[trigger] digits[i]))
        && digits_value(digits) <= usize::MAX {
        Some(digits_value(digits) as usize)
    } else {
        None
    }
}

/// A prefix of a run of digits denotes no more than the whole run.
proof fn lemma_prefix_value(digits: Seq<char>, n: int)
    requires
        0 <= n <= digits.len(),
    ensures
        digits_value(digits.take(n)) <= digits_value(digits),
    decreases digits.len(),
{
    if n == digits.len() {
        assert(digits.take(n) =~= digits);
    } else {
        assert(digits.take(n) =~= digits.drop_last().take(n));
        lemma_prefix_value(digits.drop_last(), n);
    }
}

/// Decimal notation is made of digits, has at least one, and denotes the number it was made from.
proof fn lemma_decimal(value: nat)
    ensures
        decimal(value).len() > 0,
        forall|i: int| 0 <= i < decimal(value).len() ==> is_digit(#[trigger] decimal(value)[i]),
        digits_value(decimal(value)) == value,
    decreases value,
{
    reveal_with_fuel(digits_value, 2);
    if value < 10 {
        assert(decimal(value).drop_last() =~= Seq::<char>::empty());
    } else {
        lemma_decimal(value / 10);
        assert(decimal(value).drop_last() =~= decimal(value / 10));
    }
}

/// Reading the decimal notation of a position gives the position back.
pub proof fn position_of_decimal(position: usize)
    ensures
        position_of(decimal(position as nat)) == Some(position),
{
    lemma_decimal(position as nat);
    assert(is_digit(decimal(position as nat)[0]));
}

/// Decimal notation holds no slash.
pub proof fn decimal_has_no_slash(value: nat)
    ensures
        !decimal(value).contains('/'),
{
    lemma_decimal(value);
}

/// Two positions with the same decimal notation are the same position.
pub proof fn decimal_is_injective(a: usize, b: usize)
    requires
        decimal(a as nat) == decimal(b as nat),
    ensures
        a == b,
{
    position_of_decimal(a);
    position_of_decimal(b);
}

/// Writes a position in decimal notation.
pub fn write_position(position: usize) -> (text: String)
    ensures
        text@ == decimal(position as nat),
    decreases position,
{
    let mut text: String = String::new();
    if position >= 10 {
        text = write_position(position / 10);
    }
    let last: u8 = 48 + (position % 10) as u8;
    text.push(last as char);
    assert(text@ =~= decimal(position as nat));
    text
}

/// Reads a position in decimal notation.
pub fn read_position(text: &str) -> (position: Option<usize>)
    ensures
        position == position_of(text@),
{
    let chars: Vec<char> = chars_of(text);
    let mut at: usize = 0;
    if chars.len() > 0 && chars[0] == '+' {
        at = 1;
    }
    let ghost digits = unsigned_digits(text@);
    let start: usize = at;
    if at == chars.len() {
        return None;
    }
    let mut value: usize = 0;
    while at < chars.len()
        invariant
            chars@ == text@,
            start <= at <= chars.len(),
            digits == unsigned_digits(text@),
            start == text@.len() - digits.len(),
            digits == text@.skip(start as int),
            forall|i: int| 0 <= i < at - start ==> is_digit(#[trigger] digits[i]),
            value == digits_value(digits.take(at - start)),
        decreases chars.len() - at,
    {
        let ch: char = chars[at];
        assert(ch == digits[at - start]);
        if ch < '0' || ch > '9' {
            return None;
        }
        let low: usize = (ch as u32 - 48) as usize;
        proof {
            let next = digits.take(at - start + 1);
            assert(next.drop_last() =~= digits.take(at - start));
            assert(digits_value(next) == value * 10 + low);
            lemma_prefix_value(digits, at - start + 1);
        }
        match value.checked_mul(10) {
            None => {
                return None;
            },
            Some(shifted) => {
                match shifted.checked_add(low) {
                    None => {
                        return None;
                    },
                    Some(sum) => {
                        value = sum;
                    },
                }
            },
        }
        at += 1;
    }
    assert(digits.take(digits.len() as int) =~= digits);
    Some(value)
}

/// One character is a position if it is a digit, and then that number.
pub proof fn one_digit_is_its_number(ch: char)
    ensures
        position_of(seq![ch]) == if '0' <= ch && ch <= '9' {
            Some((ch as nat - '0' as nat) as usize)
        } else {
            None
        },
{
    reveal_with_fuel(digits_value, 2);
    let text = seq![ch];
    assert(text.drop_last() =~= Seq::empty());
    assert(text[0] == ch);
    if ch == '+' {
        assert(unsigned_digits(text).len() == 0);
    } else {
        assert(unsigned_digits(text) == text);
        assert(unsigned_digits(text)[0] == ch);
    }
}

/// One more digit makes a number ten times as large and adds the digit, as long as it fits; any
/// other character makes it no position. What is no position becomes none by more characters,
/// except where there was no digit yet.
pub proof fn one_more_digit(text: Seq<char>, ch: char)
    requires
        text.len() > 0,
        text != seq!['+'],
    ensures
        position_of(text.push(ch)) == match position_of(text) {
            Some(number) => if '0' <= ch && ch <= '9' && number * 10 + (ch as nat - '0' as nat)
                <= usize::MAX {
                Some((number * 10 + (ch as nat - '0' as nat)) as usize)
            } else {
                None
            },
            None => None,
        },
{
    let digits = unsigned_digits(text);
    let more = unsigned_digits(text.push(ch));
    assert(text.push(ch)[0] == text[0]);
    assert(more =~= digits.push(ch));
    assert(more.drop_last() =~= digits);
    if digits.len() == 0 {
        assert(text =~= seq!['+']);
    }
    let all = forall|i: int| 0 <= i < digits.len() ==> is_digit(#[trigger] digits[i]);
    if all && is_digit(ch) {
        assert forall|i: int| 0 <= i < more.len() implies is_digit(#[trigger] more[i]) by {
            if i < digits.len() {
                assert(more[i] == digits[i]);
            }
        }
    } else if !all {
        let i = choose|i: int| 0 <= i < digits.len() && !is_digit(#[trigger] digits[i]);
        assert(more[i] == digits[i]);
    } else {
        assert(more[digits.len() as int] == ch);
    }
}

/// A plus sign in front of a number changes nothing, and is no number alone; a text that is empty
/// is none either.
pub proof fn a_plus_sign_changes_nothing(text: Seq<char>)
    requires
        text.len() > 0 ==> text[0] != '+',
    ensures
        position_of(seq!['+'] + text) == position_of(text),
        position_of(Seq::empty()) is None,
{
    assert(unsigned_digits(seq!['+'] + text) =~= text);
}

/// A position is written in digits alone, without a zero in front of another digit, and is read
/// back as itself; so no two positions are written alike, and no position in two ways.
pub proof fn position_is_written_plainly(position: usize, text: String, i: int)
    requires
        call_ensures(write_position, (position,), text),
    ensures
        text@.len() > 0,
        0 <= i < text@.len() ==> '0' <= text@[i] && text@[i] <= '9',
        text@.len() > 1 ==> text@[0] != '0',
        position_of(text@) == Some(position),
{
    lemma_decimal(position as nat);
    lemma_no_leading_zero(position as nat);
    position_of_decimal(position);
    if 0 <= i < text@.len() {
        assert(is_digit(decimal(position as nat)[i]));
    }
}

/// Decimal notation has no leading zero, but for zero itself.
proof fn lemma_no_leading_zero(value: nat)
    ensures
        decimal(value).len() > 0,
        value > 0 ==> decimal(value)[0] != '0',
        decimal(value).len() > 1 ==> value >= 10,
    decreases value,
{
    if value >= 10 {
        lemma_no_leading_zero(value / 10);
        assert(decimal(value)[0] == decimal(value / 10)[0]);
    }
}

} // verus!

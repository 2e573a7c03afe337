//! Text built from characters.

use vstd::prelude::*;

verus! {

/// `String::push`: the character goes to the end.
pub assume_specification[ String::push ](text: &mut String, ch: char)
    ensures
        final(text)@ == old(text)@.push(ch),
;

/// The decimal digits of a number, without leading zeros.
pub open spec fn decimal_text(value: nat) -> Seq<char>
    decreases value,
{
    if value < 10 {
        seq![digit_char(value)]
    } else {
        decimal_text(value / 10).push(digit_char(value % 10))
    }
}

/// The character of one decimal digit.
pub open spec fn digit_char(digit: nat) -> char {
    (48 + digit) as char
}

/// Append the decimal digits of a number.
pub fn push_decimal(text: &mut String, value: u64)
    ensures
        final(text)@ == old(text)@ + decimal_text(value as nat),
    decreases value,
{
    if value >= 10 {
        push_decimal(text, value / 10);
    }
    let digit: u8 = (value % 10) as u8;
    text.push((48 + digit) as char);
    assert(text@ =~= old(text)@ + decimal_text(value as nat));
}

/// Append a whole text.
pub fn push_text(text: &mut String, tail: &str)
    ensures
        final(text)@ == old(text)@ + tail@,
{
    text.append(tail);
}

/// The text made of two texts.
pub fn joined(head: &str, tail: &str) -> (text: String)
    ensures
        text@ == head@ + tail@,
{
    let mut text = head.to_owned();
    text.append(tail);
    text
}

/// Whether two texts are the same.
pub fn same_text(left: &str, right: &str) -> (same: bool)
    ensures
        same == (left@ == right@),
{
    left.to_owned() == right.to_owned()
}

/// The number that decimal digits spell.
pub open spec fn digits_value(digits: Seq<char>) -> nat
    decreases digits.len(),
{
    if digits.len() == 0 {
        0
    } else {
        digits_value(digits.drop_last()) * 10 + (digits.last() as nat - 48) as nat
    }
}

/// The digits of a number spell that number again. They are digits only, with no
/// zero in front of others.
pub proof fn law_decimal_digits_spell_the_number(value: nat)
    ensures
        digits_value(decimal_text(value)) == value,
        decimal_text(value).len() > 0,
        decimal_text(value).len() > 1 ==> decimal_text(value)[0] != '0',
        forall|i: int|
            0 <= i < decimal_text(value).len() ==> '0' <= #[trigger] decimal_text(value)[i] <= '9',
    decreases value,
{
    if value >= 10 {
        law_decimal_digits_spell_the_number(value / 10);
        let head = decimal_text(value / 10);
        assert(decimal_text(value) =~= head.push(digit_char(value % 10)));
        assert(decimal_text(value).drop_last() =~= head);
        if head.len() == 1 {
            assert(head.drop_last() =~= Seq::<char>::empty());
            assert(digits_value(head.drop_last()) == 0);
        }
    } else {
        assert(decimal_text(value).drop_last() =~= Seq::<char>::empty());
        assert(digits_value(decimal_text(value).drop_last()) == 0);
    }
}

} // verus!

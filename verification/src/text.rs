//! Text built piece by piece: decimal numbers and plain concatenation.

use vstd::prelude::*;

verus! {

/// `String::push` appends one character, as its documentation says.
pub assume_specification[ String::push ](text: &mut String, c: char)
    ensures
        final(text)@ == old(text)@.push(c),
;

/// `String::push_str` appends a string slice, as its documentation says.
pub assume_specification[ String::push_str ](text: &mut String, tail: &str)
    ensures
        final(text)@ == old(text)@ + tail@,
;

/// The decimal digit for a number below ten.
pub open spec fn digit(value: nat) -> char {
    (48 + value) as u8 as char
}

/// The decimal notation of a natural number: no leading zeros, `0` for zero.
pub open spec fn decimal(value: nat) -> Seq<char>
    decreases value,
{
    if value < 10 {
        seq![digit(value)]
    } else {
        decimal(value / 10).push(digit(value % 10))
    }
}

/// The decimal notation of an integer, with a minus sign before a negative one.
pub open spec fn signed_decimal(value: int) -> Seq<char> {
    if value < 0 {
        seq!['-'] + decimal((-value) as nat)
    } else {
        decimal(value as nat)
    }
}

/// Appends the decimal notation of `value`.
pub fn push_decimal(text: &mut String, value: u64)
    ensures
        final(text)@ == old(text)@ + decimal(value as nat),
    decreases value,
{
    if value >= 10 {
        push_decimal(text, value / 10);
    }
    let last: u8 = (value % 10) as u8;
    text.push((48 + last) as char);
    proof {
        assert(text@ =~= old(text)@ + decimal(value as nat));
    }
}

/// Appends the decimal notation of `value`, signed.
pub fn push_signed(text: &mut String, value: i32)
    ensures
        final(text)@ == old(text)@ + signed_decimal(value as int),
{
    if value < 0 {
        text.push('-');
        push_decimal(text, (-(value as i64)) as u64);
        proof {
            assert(text@ =~= old(text)@ + signed_decimal(value as int));
        }
    } else {
        push_decimal(text, value as u64);
    }
}

// ---- What decimal notations say ----

/// The number that digits say, read from the left.
pub open spec fn number_said(digits: Seq<char>) -> int
    decreases digits.len(),
{
    if digits.len() == 0 {
        0
    } else {
        10 * number_said(digits.drop_last()) + (digits.last() as int - '0' as int)
    }
}

/// A decimal notation is made of digits, says the number that it was made from,
/// and has no leading zero unless it is zero itself.
pub proof fn decimals_say_their_number(value: nat)
    ensures
        decimal(value).len() > 0,
        forall|i: int|
            0 <= i < decimal(value).len() ==> '0' <= #[trigger] decimal(value)[i] <= '9',
        number_said(decimal(value)) == value,
        decimal(value)[0] == '0' ==> value == 0 && decimal(value).len() == 1,
    decreases value,
{
    reveal_with_fuel(number_said, 2);
    if value >= 10 {
        decimals_say_their_number(value / 10);
        assert(decimal(value).drop_last() =~= decimal(value / 10));
    } else {
        assert(decimal(value).drop_last() =~= Seq::<char>::empty());
    }
}

/// Different numbers have different notations.
pub proof fn decimals_tell_numbers_apart(first: nat, second: nat)
    requires
        decimal(first) == decimal(second),
    ensures
        first == second,
{
    decimals_say_their_number(first);
    decimals_say_their_number(second);
}

/// Just the negative numbers have a minus sign, and behind it stands the
/// notation of the number without its sign.
pub proof fn signs_are_written(value: int)
    ensures
        value < 0 ==> signed_decimal(value)[0] == '-' && number_said(
            signed_decimal(value).skip(1),
        ) == -value && signed_decimal(value).skip(1) == decimal((-value) as nat),
        value >= 0 ==> signed_decimal(value)[0] != '-' && number_said(signed_decimal(value))
            == value && signed_decimal(value) == decimal(value as nat),
{
    if value < 0 {
        decimals_say_their_number((-value) as nat);
        assert(signed_decimal(value).skip(1) =~= decimal((-value) as nat));
    } else {
        decimals_say_their_number(value as nat);
    }
}

} // verus!

//! Coordinates written out for a reader.

use crate::coordinates::Coordinates;
use vstd::prelude::*;

verus! {

/// `String::push` of the standard library appends one character to the end
/// of the string. The contract says that and nothing more: the characters
/// that were there stay, in their order, and the new one follows them.
pub assume_specification[ String::push ](text: &mut String, ch: char)
    ensures
        final(text)@ == old(text)@.push(ch),
;

/// The character that stands for the digit `d`.
pub open spec fn digit_char(d: int) -> char {
    if d == 0 {
        '0'
    } else if d == 1 {
        '1'
    } else if d == 2 {
        '2'
    } else if d == 3 {
        '3'
    } else if d == 4 {
        '4'
    } else if d == 5 {
        '5'
    } else if d == 6 {
        '6'
    } else if d == 7 {
        '7'
    } else if d == 8 {
        '8'
    } else {
        '9'
    }
}

/// The decimal digits of `n`, the most significant first, without leading zeros.
pub open spec fn decimal_text(n: nat) -> Seq<char>
    decreases n,
{
    if n < 10 {
        seq![digit_char(n as int)]
    } else {
        decimal_text(n / 10).push(digit_char((n % 10) as int))
    }
}

/// A pair of numbers as it is written: both in decimal, separated by a comma
/// and a space, in round brackets.
pub open spec fn pair_text(x: nat, y: nat) -> Seq<char> {
    seq!['('] + decimal_text(x) + seq![',', ' '] + decimal_text(y) + seq![')']
}

/// The character that stands for the digit `d`.
fn digit(d: u16) -> (r: char)
    requires
        d < 10,
    ensures
        r == digit_char(d as int),
{
    match d {
        0 => '0',
        1 => '1',
        2 => '2',
        3 => '3',
        4 => '4',
        5 => '5',
        6 => '6',
        7 => '7',
        8 => '8',
        _ => '9',
    }
}

/// Appends the decimal digits of `n` to `text`.
fn push_decimal(text: &mut String, n: u16)
    ensures
        final(text)@ == old(text)@ + decimal_text(n as nat),
    decreases n,
{
    if n >= 10 {
        push_decimal(text, n / 10);
    }
    text.push(digit(n % 10));
    assert(text@ =~= old(text)@ + decimal_text(n as nat));
}

impl Coordinates {
    /// The coordinates as they are written: `(x, y)`.
    pub open spec fn spec_text(self) -> Seq<char> {
        pair_text(self.x as nat, self.y as nat)
    }

    /// Writes the coordinates out as `(x, y)`.
    pub fn to_string(&self) -> (r: String)
        ensures
            r@ == self.spec_text(),
    {
        let mut text = String::new();
        text.push('(');
        push_decimal(&mut text, self.x);
        text.push(',');
        text.push(' ');
        push_decimal(&mut text, self.y);
        text.push(')');
        proof {
            assert(text@ =~= self.spec_text());
        }
        text
    }
}

} // verus!

//! Reading an unsigned number out of a field that may hold other characters.

use vstd::prelude::*;
use crate::text::chars_of;

verus! {

/// Why a line of a schedule cannot be read.
#[derive(Clone, Copy, Debug, PartialEq, Eq, Structural)]
pub enum ParseError {
    /// A duration field holds no decimal digit.
    NoDigits,
    /// The digits of a duration field spell a number above `u32::MAX`.
    NumberTooLarge,
    /// The interval in seconds is above `u32::MAX`.
    IntervalTooLarge,
}

/// Whether `c` is one of the ten decimal digits `0` to `9`.
pub open spec fn is_digit(c: char) -> bool {
    '0' <= c && c <= '9'
}

/// The number a decimal digit stands for.
pub open spec fn digit_value(c: char) -> nat {
    (c as int - '0' as int) as nat
}

/// The decimal digits of `s`, in the order in which they occur.
pub open spec fn digits_of(s: Seq<char>) -> Seq<char> {
    s.filter(|c: char| is_digit(c))
}

/// The number that a sequence of decimal digits spells; 0 for none.
pub open spec fn decimal_value(digits: Seq<char>) -> nat
    decreases digits.len(),
{
    if digits.len() == 0 {
        0
    } else {
        decimal_value(digits.drop_last()) * 10 + digit_value(digits.last())
    }
}

/// The number in a field: what its digits spell, everything else ignored.
pub open spec fn number_of(s: Seq<char>) -> Result<u32, ParseError> {
    let digits = digits_of(s);
    if digits.len() == 0 {
        Err(ParseError::NoDigits)
    } else if decimal_value(digits) > u32::MAX {
        Err(ParseError::NumberTooLarge)
    } else {
        Ok(decimal_value(digits) as u32)
    }
}

/// How the digits of a text grow with one more character.
pub proof fn lemma_digits_step(s: Seq<char>, i: int)
    requires
        0 <= i < s.len(),
    ensures
        digits_of(s.take(i + 1)) == if is_digit(s[i]) {
            digits_of(s.take(i)).push(s[i])
        } else {
            digits_of(s.take(i))
        },
{
    reveal(Seq::filter);
    assert(s.take(i + 1).drop_last() =~= s.take(i));
    assert(s.take(i + 1).last() == s[i]);
}

/// A longer prefix of a text never spells a smaller number.
pub proof fn lemma_value_monotonic(s: Seq<char>, i: int, j: int)
    requires
        0 <= i <= j <= s.len(),
    ensures
        decimal_value(digits_of(s.take(i))) <= decimal_value(digits_of(s.take(j))),
        digits_of(s.take(i)).len() <= digits_of(s.take(j)).len(),
    decreases j - i,
{
    if i < j {
        lemma_value_monotonic(s, i, j - 1);
        lemma_digits_step(s, j - 1);
        let d = digits_of(s.take(j - 1));
        if is_digit(s[j - 1]) {
            assert(d.push(s[j - 1]).drop_last() =~= d);
        }
    }
}

/// The digits of two texts written one after the other are the digits of
/// the first, then those of the second.
pub proof fn lemma_digits_concat(a: Seq<char>, b: Seq<char>)
    ensures
        digits_of(a + b) == digits_of(a) + digits_of(b),
    decreases b.len(),
{
    reveal(Seq::filter);
    if b.len() == 0 {
        assert(a + b =~= a);
        assert(digits_of(a) + digits_of(b) =~= digits_of(a));
    } else {
        lemma_digits_concat(a, b.drop_last());
        assert((a + b).drop_last() =~= a + b.drop_last());
        assert((a + b).last() == b.last());
        if is_digit(b.last()) {
            assert(digits_of(a + b) =~= digits_of(a) + digits_of(b));
        }
    }
}

/// Characters that are no digits do not count: a text with one of them put
/// in anywhere holds the same number.
pub proof fn lemma_number_ignores_other_characters(before: Seq<char>, c: char, after: Seq<char>)
    requires
        !is_digit(c),
    ensures
        digits_of(before + seq![c] + after) == digits_of(before + after),
        number_of(before + seq![c] + after) == number_of(before + after),
{
    lemma_digits_concat(before + seq![c], after);
    lemma_digits_concat(before, seq![c]);
    lemma_digits_concat(before, after);
    assert(digits_of(seq![c]) =~= Seq::<char>::empty()) by {
        reveal_with_fuel(Seq::filter, 2);
        assert(seq![c].drop_last() =~= Seq::<char>::empty());
    }
    assert(digits_of(before) + Seq::<char>::empty() =~= digits_of(before));
}

/// A text made of digits alone holds the number that it spells.
pub proof fn lemma_digits_of_digits(s: Seq<char>)
    requires
        forall|i: int| 0 <= i < s.len() ==> is_digit(#[trigger] s[i]),
    ensures
        digits_of(s) == s,
    decreases s.len(),
{
    reveal(Seq::filter);
    if s.len() > 0 {
        lemma_digits_of_digits(s.drop_last());
        assert(s.drop_last().push(s.last()) =~= s);
    }
}

/// The number in `chars`, or why there is none.
pub fn number_in(chars: &Vec<char>) -> (r: Result<u32, ParseError>)
    ensures
        r == number_of(chars@),
{
    let mut seen: bool = false;
    let mut value: u32 = 0;
    let mut i: usize = 0;
    proof {
        reveal(Seq::filter);
        assert(chars@.take(0) =~= Seq::<char>::empty());
    }
    while i < chars.len()
        invariant
            i <= chars@.len(),
            seen == (digits_of(chars@.take(i as int)).len() > 0),
            value == decimal_value(digits_of(chars@.take(i as int))),
        decreases chars@.len() - i,
    {
        let c: char = chars[i];
        proof {
            lemma_digits_step(chars@, i as int);
            let d = digits_of(chars@.take(i as int));
            if is_digit(c) {
                assert(d.push(c).drop_last() =~= d);
            }
        }
        if '0' <= c && c <= '9' {
            let digit: u32 = c as u32 - '0' as u32;
            if value > (u32::MAX - digit) / 10 {
                proof {
                    lemma_value_monotonic(chars@, i + 1, chars@.len() as int);
                    assert(chars@.take(chars@.len() as int) =~= chars@);
                }
                return Err(ParseError::NumberTooLarge);
            }
            value = value * 10 + digit;
            seen = true;
        }
        i = i + 1;
    }
    assert(chars@.take(i as int) =~= chars@);
    if seen {
        Ok(value)
    } else {
        Err(ParseError::NoDigits)
    }
}

/// The number in `string`, or why there is none: total where
/// [`sanitise_to_u32`] asks for a field that holds a number.
pub fn checked_sanitise_to_u32(string: &str) -> (r: Result<u32, ParseError>)
    ensures
        r == number_of(string@),
{
    let chars = chars_of(string);
    number_in(&chars)
}

/// Drops every character of `string` that is no decimal digit and reads the
/// rest as a number.
pub fn sanitise_to_u32(string: &str) -> (value: u32)
    requires
        number_of(string@) is Ok,
    ensures
        number_of(string@) == Ok::<u32, ParseError>(value),
        value == decimal_value(digits_of(string@)),
{
    checked_sanitise_to_u32(string).unwrap()
}

} // verus!

//! Numbers as text: decimal digits and right-aligned fields.

use vstd::prelude::*;

verus! {

/// `String::push` of the standard library: the character is appended at the
/// end and nothing else changes. Taken from its documentation, not proved.
pub assume_specification[ String::push ](text: &mut String, ch: char)
    ensures
        final(text)@ == old(text)@.push(ch),
;

/// The character of the digit `d`, from `0` for 0 to `9` for 9.
pub open spec fn digit_char(d: int) -> char {
    (48 + d) as char
}

/// The decimal digits of `n`, most significant first, without leading zeros.
pub open spec fn decimal(n: nat) -> Seq<char>
    decreases n,
{
    if n < 10 {
        seq![digit_char(n as int)]
    } else {
        decimal(n / 10).push(digit_char((n % 10) as int))
    }
}

/// As many blanks as `text` falls short of `width` characters; none where
/// it is at least that long.
pub open spec fn padding(text: Seq<char>, width: nat) -> Seq<char> {
    if text.len() < width {
        Seq::new((width - text.len()) as nat, |i: int| ' ')
    } else {
        Seq::empty()
    }
}

/// `text` moved to the right end of a field of `width` characters, the rest
/// filled with blanks. A text wider than the field is left as it is.
pub open spec fn right_aligned(text: Seq<char>, width: nat) -> Seq<char> {
    padding(text, width) + text
}

/// Appends the decimal digits of `n` to `text`.
pub fn push_decimal(text: &mut String, n: u64)
    ensures
        final(text)@ == old(text)@ + decimal(n as nat),
    decreases n,
{
    if n >= 10 {
        push_decimal(text, n / 10);
    }
    let digit: u8 = 48 + (n % 10) as u8;
    text.push(digit as char);
}

/// The decimal digits of `n`.
pub fn decimal_string(n: u64) -> (text: String)
    ensures
        text@ == decimal(n as nat),
{
    let mut text = String::new();
    push_decimal(&mut text, n);
    text
}

/// The number of decimal digits of `n`.
pub fn decimal_len(n: u64) -> (digits: usize)
    ensures
        digits == decimal(n as nat).len(),
        1 <= digits <= 20,
    decreases n,
{
    proof {
        lemma_decimal_len_bound(n as nat);
    }
    if n < 10 {
        1
    } else {
        decimal_len(n / 10) + 1
    }
}

/// Appends the decimal digits of `n` to `text`, right-aligned in a field of
/// `width` characters.
pub fn push_right_aligned(text: &mut String, n: u64, width: usize)
    ensures
        final(text)@ == old(text)@ + right_aligned(decimal(n as nat), width as nat),
{
    let digits = decimal_len(n);
    let mut filled: usize = digits;
    while filled < width
        invariant
            digits == decimal(n as nat).len(),
            digits <= filled,
            filled <= width || filled == digits,
            text@ == old(text)@ + Seq::new((filled - digits) as nat, |i: int| ' '),
        decreases width - filled,
    {
        text.push(' ');
        filled += 1;
    }
    push_decimal(text, n);
}

/// A number has at least one digit, one below ten exactly one, one below a
/// hundred at most two, one below a thousand at most three, and one that
/// fits in 64 bits at most twenty.
pub proof fn lemma_decimal_len_bound(n: nat)
    ensures
        1 <= decimal(n).len(),
        n <= u64::MAX ==> decimal(n).len() <= 20,
        n < 10 ==> decimal(n).len() == 1,
        10 <= n < 100 ==> decimal(n).len() == 2,
        100 <= n < 1000 ==> decimal(n).len() == 3,
{
    reveal_with_fuel(decimal, 21);
}

/// Every character of a decimal number is a digit.
pub proof fn lemma_decimal_digits(n: nat, i: int)
    requires
        0 <= i < decimal(n).len(),
    ensures
        '0' <= decimal(n)[i] <= '9',
    decreases n,
{
    if n >= 10 && i < decimal(n).len() - 1 {
        lemma_decimal_digits(n / 10, i);
    }
}

/// The number that a row of digits stands for, read in base ten.
pub open spec fn denoted(digits: Seq<char>) -> int
    decreases digits.len(),
{
    if digits.len() == 0 {
        0
    } else {
        10 * denoted(digits.drop_last()) + (digits.last() as int - 48)
    }
}

/// The decimal digits of `n` stand for `n`, and begin with a zero only where
/// `n` is zero.
pub proof fn lemma_decimal_denotes(n: nat)
    ensures
        denoted(decimal(n)) == n,
        n > 0 ==> decimal(n)[0] != '0',
    decreases n,
{
    let digits = decimal(n);
    if n >= 10 {
        lemma_decimal_denotes(n / 10);
        assert(digits.drop_last() =~= decimal(n / 10));
    } else {
        assert(digits.drop_last() =~= Seq::<char>::empty());
        assert(denoted(Seq::<char>::empty()) == 0);
    }
}

} // verus!

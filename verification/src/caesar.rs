//! The Caesar cipher on capital letters: every letter is replaced by the one
//! a fixed number of places further along the alphabet.

use vstd::prelude::*;

verus! {

/// The code of a character read as a signed 16-bit number: the low 16 bits
/// of its scalar value, in two's complement.
pub open spec fn code_of(ch: char) -> int {
    let low = (ch as int) % 0x1_0000;
    if low < 0x8000 {
        low
    } else {
        low - 0x1_0000
    }
}

/// `code` lies between the codes of `A` and `Z`.
pub open spec fn is_capital(code: int) -> bool {
    65 <= code <= 90
}

/// The remainder of `x` by 26 that takes the sign of `x`.
pub open spec fn rem_26(x: int) -> int {
    if x >= 0 {
        x % 26
    } else {
        -((-x) % 26)
    }
}

/// The code that `code` is shifted to: a capital letter moves `shift` places
/// along the alphabet, any other code stays.
pub open spec fn shifted_code(code: int, shift: int) -> int {
    if is_capital(code) {
        rem_26(code - 65 + shift + 26) + 65
    } else {
        code
    }
}

/// The character whose scalar value is the low 8 bits of `code`.
pub open spec fn char_of(code: int) -> char {
    (code % 0x100) as char
}

/// The character that `ch` is replaced by under `shift`.
pub open spec fn shifted(ch: char, shift: int) -> char {
    char_of(shifted_code(code_of(ch), shift))
}

/// Shifting the capital letters of `text` stays within 16-bit signed
/// arithmetic.
pub open spec fn shift_fits(text: Seq<char>, shift: int) -> bool {
    forall|i: int|
        0 <= i < text.len() && is_capital(code_of(#[trigger] text[i])) ==> code_of(text[i]) - 65
            + shift + 26 <= i16::MAX
}

/// `text` with each of its characters shifted.
pub open spec fn encrypted(text: Seq<char>, shift: int) -> Seq<char> {
    Seq::new(text.len(), |i: int| shifted(text[i], shift))
}

/// The 16-bit signed code of a character.
fn code(ch: char) -> (code: i16)
    ensures
        code == code_of(ch),
{
    let low: u32 = (ch as u32) % 0x1_0000;
    if low < 0x8000 {
        low as i16
    } else {
        (low as i32 - 0x1_0000) as i16
    }
}

/// The character with the low 8 bits of a code.
fn low_char(code: i16) -> (ch: char)
    ensures
        ch == char_of(code as int),
{
    let low: i16 = code % 0x100;
    let byte: u8 = if low < 0 {
        (low + 0x100) as u8
    } else {
        low as u8
    };
    byte as char
}

/// Shifts every capital letter of `text` by `shift` places along the
/// alphabet; a negative `shift` moves backwards. From a shift of -26 upwards
/// the letters go round from `Z` to `A`; below that, some fall off the
/// alphabet onto the characters before `A`. All other characters stay, as
/// long as they lie below U+0100: a character is read by its low 16 bits and
/// written by its low 8 bits.
///
/// The place of a capital letter, the shift and 26 are added up in 16 bits,
/// so their sum must not exceed `i16::MAX`.
pub fn encrypt(text: &str, shift: i16) -> (result: String)
    requires
        shift_fits(text@, shift as int),
    ensures
        result@ == encrypted(text@, shift as int),
{
    let code_a: i16 = 65;
    let code_z: i16 = 90;
    let mut result = String::new();
    for ch in chars: text.chars()
        invariant
            chars.seq() == text@,
            code_a == 65,
            code_z == 90,
            shift_fits(text@, shift as int),
            result@ == encrypted(text@.take(chars.index() as int), shift as int),
    {
        let mut code = code(ch);
        if code_a <= code && code <= code_z {
            code = (code - code_a + shift + 26) % 26 + code_a;
        }
        result.push(low_char(code));
    }
    result
}

/// A character below 256 that is no capital letter stays as it is, whatever
/// the shift.
pub proof fn lemma_other_characters_stay(ch: char, shift: int)
    requires
        (ch as int) < 0x100,
        !is_capital(ch as int),
    ensures
        shifted(ch, shift) == ch,
{
}

/// From a shift of -26 on, a capital letter is replaced by the capital
/// letter `shift` places further along the alphabet, counted round from `Z`
/// to `A`.
pub proof fn lemma_capitals_rotate(ch: char, shift: int)
    requires
        is_capital(ch as int),
        -26 <= shift,
    ensures
        shifted(ch, shift) as int == 65 + (ch as int - 65 + shift) % 26,
        is_capital(shifted(ch, shift) as int),
{
    let at = ch as int - 65;
    assert((at + shift + 26) % 26 == (at + shift) % 26) by {
        vstd::arithmetic::div_mod::lemma_mod_add_multiples_vanish(at + shift, 26);
    }
}

/// Shifting a text of characters below 256 by `shift`, of at most 26 places
/// either way, and then by `-shift` gives the text back.
pub proof fn lemma_round_trip(text: Seq<char>, shift: int)
    requires
        -26 <= shift <= 26,
        forall|i: int| 0 <= i < text.len() ==> (#[trigger] text[i] as int) < 0x100,
    ensures
        encrypted(encrypted(text, shift), -shift) == text,
{
    let there = encrypted(text, shift);
    let back = encrypted(there, -shift);
    assert forall|i: int| 0 <= i < text.len() implies back[i] == text[i] by {
        let ch = text[i];
        if is_capital(ch as int) {
            lemma_capitals_rotate(ch, shift);
            lemma_capitals_rotate(there[i], -shift);
            let at = ch as int - 65;
            let moved = (at + shift) % 26;
            assert((moved - shift) % 26 == at) by {
                vstd::arithmetic::div_mod::lemma_fundamental_div_mod(at + shift, 26);
                vstd::arithmetic::div_mod::lemma_fundamental_div_mod_converse(
                    moved - shift,
                    26,
                    -((at + shift) / 26),
                    at,
                );
            }
        } else {
            lemma_other_characters_stay(ch, shift);
            lemma_other_characters_stay(ch, -shift);
        }
    }
}

} // verus!

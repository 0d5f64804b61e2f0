//! Text as a sequence of characters, and building it one character at a time.

use vstd::prelude::*;

verus! {

/// Appends one character to the end of a string.
///
/// This is `String::push` of the standard library, taken on trust: its
/// documentation says that it appends the given character to the end of the
/// string, and the contract says the same of the string's characters.
#[verifier::external_body]
pub(crate) fn push_char(text: &mut String, c: char)
    ensures
        final(text)@ == old(text)@.push(c),
{
    text.push(c);
}

/// Whether a number is the code of a character: a Unicode scalar value.
pub open spec fn is_scalar_value(code: int) -> bool {
    0 <= code <= 0xD7FF || 0xE000 <= code <= 0x10FFFF
}

/// The code of a character is a scalar value.
proof fn lemma_character_code(c: char)
    ensures
        is_scalar_value(c as int),
{
}

/// Whatever stands at a place of a text is a character.
///
/// The verifier does not carry this fact along for the elements of a sequence
/// of characters, and a definition that takes a character unfolds only on a
/// value known to be one. The modules that reason about the characters of a
/// key bring this lemma in with `broadcast use`.
pub broadcast proof fn lemma_text_holds_characters(text: Seq<char>, i: int)
    ensures
        is_scalar_value(#[trigger] text[i] as int),
{
    lemma_character_code(text[i]);
}

} // verus!

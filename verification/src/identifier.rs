//! Record identifiers.
//!
//! An identifier is the canonical text of a 128-bit universally unique
//! identifier: thirty-two lower-case hexadecimal digits in groups of
//! eight, four, four, four and twelve, separated by hyphens.

use vstd::prelude::*;
use vstd::string::*;

verus! {

/// Number of characters in an identifier.
pub const IDENTIFIER_LEN: usize = 36;

/// ASCII codes of the characters that an identifier is made of.
const HYPHEN: u8 = 0x2d;

const DIGIT_0: u8 = 0x30;

const DIGIT_4: u8 = 0x34;

const DIGIT_8: u8 = 0x38;

const DIGIT_9: u8 = 0x39;

const LETTER_A: u8 = 0x61;

const LETTER_B: u8 = 0x62;

const LETTER_F: u8 = 0x66;

/// A lower-case hexadecimal digit.
pub open spec fn is_hex_digit(c: char) -> bool {
    ('0' <= c && c <= '9') || ('a' <= c && c <= 'f')
}

/// The four positions of an identifier that hold a hyphen.
pub open spec fn is_hyphen_position(i: int) -> bool {
    i == 8 || i == 13 || i == 18 || i == 23
}

/// Whether `c` may stand at position `i` of an identifier.
pub open spec fn fits_at(i: int, c: char) -> bool {
    if is_hyphen_position(i) {
        c == '-'
    } else {
        is_hex_digit(c)
    }
}

/// The syntax of an identifier.
pub open spec fn is_identifier(text: Seq<char>) -> bool {
    &&& text.len() == IDENTIFIER_LEN
    &&& forall|i: int| 0 <= i < text.len() ==> fits_at(i, #[trigger] text[i])
}

/// The syntax of an identifier drawn at random: an identifier whose
/// version digit is `4` and whose variant digit is one of `8`, `9`, `a`, `b`.
pub open spec fn is_generated_identifier(text: Seq<char>) -> bool {
    &&& is_identifier(text)
    &&& text[14] == '4'
    &&& (text[19] == '8' || text[19] == '9' || text[19] == 'a' || text[19] == 'b')
}

/// Some text has the syntax of an identifier drawn at random.
pub proof fn generated_identifier_exists() -> (id: Seq<char>)
    ensures
        is_generated_identifier(id),
{
    reveal_strlit("00000000-0000-4000-8000-000000000000");
    let id = "00000000-0000-4000-8000-000000000000"@;
    assert forall|i: int| 0 <= i < id.len() implies fits_at(i, #[trigger] id[i]) by {}
    id
}

/// An identifier holds ASCII characters only.
pub proof fn identifier_is_ascii(text: Seq<char>)
    requires
        is_identifier(text),
    ensures
        vstd::utf8::is_ascii_chars(text),
{
    assert forall|i: int| 0 <= i < text.len() implies '\0' <= #[trigger] text[i] <= '\u{7f}' by {
        assert(fits_at(i, text[i]));
    }
}

/// Decides whether `text` has the syntax of an identifier.
pub fn is_identifier_text(text: &str) -> (ok: bool)
    ensures
        ok == is_identifier(text@),
{
    if !text.is_ascii() {
        proof {
            if is_identifier(text@) {
                identifier_is_ascii(text@);
            }
        }
        return false;
    }
    proof {
        vstd::utf8::is_ascii_chars_encode_utf8(text@);
    }
    let bytes = text.as_bytes();
    if bytes.len() != IDENTIFIER_LEN {
        return false;
    }
    let mut i: usize = 0;
    while i < IDENTIFIER_LEN
        invariant
            i <= IDENTIFIER_LEN,
            text.is_ascii(),
            text@.len() == IDENTIFIER_LEN,
            bytes@ == text.spec_bytes(),
            forall|j: int| 0 <= j < i ==> fits_at(j, #[trigger] text@[j]),
        decreases IDENTIFIER_LEN - i,
    {
        proof {
            vstd::utf8::is_ascii_chars_encode_utf8(text@);
        }
        let b: u8 = bytes[i];
        let fits = if i == 8 || i == 13 || i == 18 || i == 23 {
            b == HYPHEN
        } else {
            (DIGIT_0 <= b && b <= DIGIT_9) || (LETTER_A <= b && b <= LETTER_F)
        };
        assert(fits == fits_at(i as int, text@[i as int])) by {
            let c = text@[i as int];
            assert('\0' <= c <= '\u{7f}');
            assert(c as u8 == b);
        }
        if !fits {
            return false;
        }
        i += 1;
    }
    true
}

/// Decides whether `text` has the syntax of an identifier drawn at random.
pub fn is_generated_identifier_text(text: &str) -> (ok: bool)
    ensures
        ok == is_generated_identifier(text@),
{
    if !is_identifier_text(text) {
        return false;
    }
    proof {
        identifier_is_ascii(text@);
    }
    let version: u8 = text.get_ascii(14);
    let variant: u8 = text.get_ascii(19);
    assert(fits_at(14, text@[14]) && fits_at(19, text@[19]));
    version == DIGIT_4 && (variant == DIGIT_8 || variant == DIGIT_9 || variant == LETTER_A
        || variant == LETTER_B)
}

/// Draws a fresh identifier: `uuid::Uuid::new_v4()` rendered by the `Display`
/// impl of `uuid::Uuid` (through `to_string`).
///
/// Trusted, not proved: every value returned is the hyphenated lower-case
/// text of a version 4, variant 1 identifier. `new_v4` forces the version
/// digit to `4` and the two top bits of the variant digit to `10`; `Display`
/// writes the sixteen bytes as lower-case hexadecimal with hyphens after the
/// eighth, twelfth, sixteenth and twentieth digit. Nothing is claimed about
/// which identifier is drawn: two calls may or may not differ. The call
/// aborts by panic if the operating system cannot supply random bytes.
#[verifier::external_body]
pub(crate) fn fresh_identifier() -> (id: String)
    ensures
        is_generated_identifier(id@),
{
    uuid::Uuid::new_v4().to_string()
}

} // verus!

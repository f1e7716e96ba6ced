//! Texts of ASCII characters, read as bytes.

use vstd::prelude::*;
use vstd::string::StringSliceAdditionalSpecFns;
use vstd::utf8::is_ascii_chars;

verus! {

/// Whether bytes are the characters of a text, one byte for each character.
pub open spec fn bytes_are_chars(bytes: Seq<u8>, chars: Seq<char>) -> bool {
    &&& bytes.len() == chars.len()
    &&& forall|i: int|
        0 <= i < chars.len() ==> '\0' <= #[trigger] chars[i] <= '\u{7f}' && bytes[i] == chars[i] as u8
}

/// The bytes of a text that holds ASCII characters only, one for each
/// character; `None` for a text that holds any other character.
pub fn ascii_bytes(text: &str) -> (r: Option<&[u8]>)
    ensures
        match r {
            Some(bytes) => bytes_are_chars(bytes@, text@),
            None => !is_ascii_chars(text@),
        },
{
    if text.is_ascii() {
        let bytes = text.as_bytes();
        proof {
            vstd::utf8::is_ascii_chars_encode_utf8(text@);
        }
        Some(bytes)
    } else {
        None
    }
}

} // verus!

//! How byte sequences and the characters they spell relate under UTF-8.
//!
//! Type codes are ASCII letters, so their rendering as text is one character
//! per byte; these lemmas connect that picture with vstd's UTF-8 model, and
//! one trusted wrapper performs the UTF-8 decoding itself.

use vstd::prelude::*;
use vstd::utf8::*;

use crate::chunk_type::wf_code;

verus! {

/// The characters that a byte sequence of ASCII letters renders to: one
/// character per byte, with the same code.
pub open spec fn render_code(bytes: Seq<u8>) -> Seq<char> {
    bytes.map_values(|b: u8| b as char)
}

/// The bytes that a character sequence encodes to, one byte per character;
/// it inverts `render_code` on ASCII characters.
pub open spec fn code_bytes_of(chars: Seq<char>) -> Seq<u8> {
    chars.map_values(|c: char| c as u8)
}

/// Bytes below 128 are valid UTF-8 and decode to one character per byte.
pub proof fn lemma_ascii_bytes_decode(bytes: Seq<u8>)
    requires
        forall|i: int| 0 <= i < bytes.len() ==> bytes[i] < 128,
    ensures
        valid_utf8(bytes),
        decode_utf8(bytes) == render_code(bytes),
{
    let chars = render_code(bytes);
    assert forall|i: int| 0 <= i < chars.len() implies '\0' <= #[trigger] chars[i] <= '\u{7f}' by {
        assert(chars[i] == bytes[i] as char);
        assert(bytes[i] < 128);
    }
    assert(is_ascii_chars(chars));
    is_ascii_chars_encode_utf8(chars);
    assert(encode_utf8(chars) =~= bytes);
    encode_utf8_valid_utf8(chars);
    encode_utf8_decode_utf8(chars);
}

/// A well-formed code's bytes are a string's UTF-8 encoding exactly when the
/// string is the code's rendering.
pub proof fn lemma_code_render_encode(tb: Seq<u8>, s: Seq<char>)
    requires
        wf_code(tb),
    ensures
        render_code(tb) == s <==> encode_utf8(s) == tb,
{
    assert(forall|i: int| 0 <= i < tb.len() ==> tb[i] < 128);
    lemma_ascii_bytes_decode(tb);
    if render_code(tb) == s {
        assert(is_ascii_chars(s));
        is_ascii_chars_encode_utf8(s);
        assert(encode_utf8(s) =~= tb);
    }
    if encode_utf8(s) == tb {
        encode_utf8_decode_utf8(s);
        assert(s == decode_utf8(tb));
    }
}

/// Relies on `String::from_utf8`: it succeeds exactly on valid UTF-8 input,
/// and the characters of the returned string are the input's UTF-8 decoding.
#[verifier::external_body]
pub(crate) fn vec_to_string(v: Vec<u8>) -> (r: Option<String>)
    ensures
        r is Some <==> valid_utf8(v@),
        r is Some ==> r.unwrap()@ == decode_utf8(v@),
{
    match String::from_utf8(v) {
        Ok(s) => Some(s),
        Err(_) => None,
    }
}

} // verus!

//! The 4-byte chunk type code and the case-encoded flags it carries.
//!
//! Each of the four bytes must be an ASCII letter, and the case of each
//! position encodes one boolean flag of the chunk-naming convention.

use vstd::prelude::*;

use crate::error::PngError;
use crate::text::{code_bytes_of, lemma_ascii_bytes_decode, lemma_code_render_encode, render_code,
    vec_to_string};

verus! {

/// Whether a byte is an ASCII uppercase letter, `A` through `Z`.
pub open spec fn spec_is_upper(b: u8) -> bool {
    65 <= b <= 90
}

/// Whether a byte is an ASCII lowercase letter, `a` through `z`.
pub open spec fn spec_is_lower(b: u8) -> bool {
    97 <= b <= 122
}

/// Whether a byte is an ASCII letter of either case.
pub open spec fn spec_is_letter(b: u8) -> bool {
    spec_is_upper(b) || spec_is_lower(b)
}

/// Whether a character is an ASCII letter of either case.
pub open spec fn is_letter_char(c: char) -> bool {
    ('A' <= c && c <= 'Z') || ('a' <= c && c <= 'z')
}

/// A well-formed type code: exactly four bytes, each an ASCII letter.
pub open spec fn wf_code(tb: Seq<u8>) -> bool {
    &&& tb.len() == 4
    &&& forall|i: int| 0 <= i < 4 ==> spec_is_letter(#[trigger] tb[i])
}

pub fn is_upper_case_letter(byte: &u8) -> (r: bool)
    ensures
        r == spec_is_upper(*byte),
{
    65 <= *byte && *byte <= 90
}

pub fn is_lower_case_letter(byte: &u8) -> (r: bool)
    ensures
        r == spec_is_lower(*byte),
{
    97 <= *byte && *byte <= 122
}

/// A validated 4-byte chunk type code. Immutable once constructed.
#[derive(Debug, PartialEq, Eq, Structural)]
pub struct ChunkType {
    critical_chunk: u8,
    public_chunk: u8,
    uppercase_always_chunk: u8,
    safe_chunk: u8,
}

impl View for ChunkType {
    type V = Seq<u8>;

    closed spec fn view(&self) -> Seq<u8> {
        seq![self.critical_chunk, self.public_chunk, self.uppercase_always_chunk, self.safe_chunk]
    }
}

impl ChunkType {
    /// Every constructor establishes this: all four bytes are ASCII letters.
    pub open spec fn wf(&self) -> bool {
        wf_code(self@)
    }

    /// Builds a type code from four bytes; rejects any byte that is not an
    /// ASCII letter.
    pub fn from_bytes(bytes: [u8; 4]) -> (r: Result<ChunkType, PngError>)
        ensures
            r is Ok <==> wf_code(bytes@),
            r is Ok ==> r.unwrap()@ == bytes@,
            r is Err ==> r.unwrap_err() == PngError::InvalidByte,
    {
        let b0 = bytes[0];
        let b1 = bytes[1];
        let b2 = bytes[2];
        let b3 = bytes[3];
        if (is_upper_case_letter(&b0) || is_lower_case_letter(&b0))
            && (is_upper_case_letter(&b1) || is_lower_case_letter(&b1))
            && (is_upper_case_letter(&b2) || is_lower_case_letter(&b2))
            && (is_upper_case_letter(&b3) || is_lower_case_letter(&b3)) {
            let ct = ChunkType {
                critical_chunk: b0,
                public_chunk: b1,
                uppercase_always_chunk: b2,
                safe_chunk: b3,
            };
            proof {
                assert(ct@ =~= bytes@);
            }
            Ok(ct)
        } else {
            Err(PngError::InvalidByte)
        }
    }

    /// Builds a type code from a string of exactly four ASCII letters; any
    /// other string is rejected.
    pub fn from_str(s: &str) -> (r: Result<ChunkType, PngError>)
        ensures
            r is Ok <==> s@.len() == 4 && (forall|i: int|
                0 <= i < 4 ==> is_letter_char(#[trigger] s@[i])),
            r is Ok ==> r.unwrap()@ == code_bytes_of(s@),
            r is Err ==> r.unwrap_err() == PngError::InvalidByte,
    {
        let q = s.as_bytes_vec();
        let ghost ok_chars = s@.len() == 4 && (forall|i: int|
            0 <= i < 4 ==> is_letter_char(#[trigger] s@[i]));
        if q.len() != 4 {
            proof {
                lemma_str_letters(s@, q@, ok_chars);
            }
            return Err(PngError::InvalidByte);
        }
        let r = Self::from_bytes([q[0], q[1], q[2], q[3]]);
        proof {
            assert(seq![q@[0], q@[1], q@[2], q@[3]] =~= q@);
            lemma_str_letters(s@, q@, ok_chars);
            if ok_chars {
                assert(q@ =~= code_bytes_of(s@));
            }
        }
        r
    }

    /// The four stored bytes, in order.
    pub fn bytes(&self) -> (r: [u8; 4])
        ensures
            r@ == self@,
    {
        let r = [self.critical_chunk, self.public_chunk, self.uppercase_always_chunk,
            self.safe_chunk];
        proof {
            assert(r@ =~= self@);
        }
        r
    }

    /// The four bytes rendered as text, one character per byte.
    pub fn to_string(&self) -> (r: String)
        requires
            self.wf(),
        ensures
            r@ == render_code(self@),
    {
        let mut v: Vec<u8> = Vec::new();
        v.push(self.critical_chunk);
        v.push(self.public_chunk);
        v.push(self.uppercase_always_chunk);
        v.push(self.safe_chunk);
        proof {
            assert(v@ =~= self@);
            lemma_ascii_bytes_decode(v@);
        }
        match vec_to_string(v) {
            Some(s) => s,
            None => vstd::pervasive::unreached(),
        }
    }

    /// Uppercase first byte means the chunk is critical.
    pub fn is_critical(&self) -> (r: bool)
        ensures
            r == spec_is_upper(self@[0]),
    {
        is_upper_case_letter(&self.critical_chunk)
    }

    /// Uppercase second byte means the chunk is public.
    pub fn is_public(&self) -> (r: bool)
        ensures
            r == spec_is_upper(self@[1]),
    {
        is_upper_case_letter(&self.public_chunk)
    }

    /// Uppercase third byte means the reserved bit is valid.
    pub fn is_reserved_bit_valid(&self) -> (r: bool)
        ensures
            r == spec_is_upper(self@[2]),
    {
        is_upper_case_letter(&self.uppercase_always_chunk)
    }

    /// Lowercase fourth byte means the chunk is safe to copy.
    pub fn is_safe_to_copy(&self) -> (r: bool)
        ensures
            r == spec_is_lower(self@[3]),
    {
        is_lower_case_letter(&self.safe_chunk)
    }

    /// Validity is the reserved-bit flag and nothing more: letter validity is
    /// already guaranteed at construction, so no other check is repeated here.
    pub fn is_valid(&self) -> (r: bool)
        ensures
            r == spec_is_upper(self@[2]),
    {
        self.is_reserved_bit_valid()
    }
}

/// Type-code fidelity: a four-letter string's code bytes are exactly its
/// UTF-8 encoding, they form a well-formed code, and rendering them yields
/// the string back.
pub proof fn lemma_code_fidelity(s: Seq<char>)
    requires
        s.len() == 4,
        forall|i: int| 0 <= i < 4 ==> is_letter_char(#[trigger] s[i]),
    ensures
        code_bytes_of(s) == vstd::utf8::encode_utf8(s),
        wf_code(code_bytes_of(s)),
        render_code(code_bytes_of(s)) == s,
{
    assert(vstd::utf8::is_ascii_chars(s));
    vstd::utf8::is_ascii_chars_encode_utf8(s);
    assert(code_bytes_of(s) =~= vstd::utf8::encode_utf8(s));
    assert(wf_code(code_bytes_of(s)));
    assert forall|i: int| 0 <= i < 4 implies render_code(code_bytes_of(s))[i] == s[i] by {
        vstd::utf8::char_u32_cast(s[i], s[i] as u32);
    }
    assert(render_code(code_bytes_of(s)) =~= s);
}

/// A string is four ASCII letters exactly when its UTF-8 bytes are four
/// letter bytes.
proof fn lemma_str_letters(s: Seq<char>, q: Seq<u8>, ok_chars: bool)
    requires
        q == vstd::utf8::encode_utf8(s),
        ok_chars == (s.len() == 4 && (forall|i: int|
            0 <= i < 4 ==> is_letter_char(#[trigger] s[i]))),
    ensures
        ok_chars <==> q.len() == 4 && wf_code(q),
        ok_chars ==> q == code_bytes_of(s),
{
    if ok_chars {
        assert(vstd::utf8::is_ascii_chars(s));
        vstd::utf8::is_ascii_chars_encode_utf8(s);
        assert(q =~= code_bytes_of(s));
        assert(wf_code(q));
    } else if q.len() == 4 && wf_code(q) {
        assert(forall|i: int| 0 <= i < q.len() ==> q[i] < 128);
        lemma_ascii_bytes_decode(q);
        vstd::utf8::encode_utf8_decode_utf8(s);
        assert(s == render_code(q));
        assert(s.len() == 4);
        assert forall|i: int| 0 <= i < 4 implies is_letter_char(#[trigger] s[i]) by {
            assert(s[i] == q[i] as char);
            assert(spec_is_letter(q[i]));
        }
        assert(false);
    }
}

} // verus!

//! The two operations the surrounding tool calls with already-loaded bytes:
//! embed a message chunk, and read one back as text.

use vstd::prelude::*;
use vstd::utf8::{decode_utf8, valid_utf8};

use crate::chunk::{Chunk, ChunkV};
use crate::chunk_type::{ChunkType, is_letter_char};
use crate::encoding::push_all;
use crate::error::PngError;
use crate::png::{Png, png_ser, spec_find_chunk, spec_parse};
use crate::text::code_bytes_of;

verus! {

/// Whether `s` can name a chunk type: exactly four ASCII letters.
pub open spec fn valid_type_str(s: Seq<char>) -> bool {
    s.len() == 4 && (forall|i: int| 0 <= i < 4 ==> is_letter_char(#[trigger] s[i]))
}

/// Parses `file`, appends a chunk of type `type_str` carrying `msg` at the
/// tail of the list, and serializes the result. Any parse failure is
/// propagated unchanged; an unusable type string is an `InvalidByte`.
pub fn encode_message(file: &Vec<u8>, type_str: &str, msg: &Vec<u8>) -> (r: Result<
    Vec<u8>,
    PngError,
>)
    requires
        msg@.len() <= 0xFFFF_FFFF,
    ensures
        spec_parse(file@) is Err ==> r is Err && r->Err_0 == spec_parse(file@)->Err_0,
        spec_parse(file@) is Ok && !valid_type_str(type_str@) ==> r == Err::<Vec<u8>, PngError>(
            PngError::InvalidByte,
        ),
        spec_parse(file@) is Ok && valid_type_str(type_str@) ==> r is Ok && r.unwrap()@ == png_ser(
            spec_parse(file@)->Ok_0.push(
                ChunkV { type_bytes: code_bytes_of(type_str@), data: msg@ },
            ),
        ),
{
    let mut image = match Png::parse(file) {
        Ok(p) => p,
        Err(e) => {
            return Err(e);
        },
    };
    let ct = match ChunkType::from_str(type_str) {
        Ok(ct) => ct,
        Err(e) => {
            return Err(e);
        },
    };
    let mut data: Vec<u8> = Vec::new();
    push_all(&mut data, msg);
    image.append_chunk(Chunk::new(ct, data));
    Ok(image.as_bytes())
}

/// Parses `file`, finds the first chunk whose type renders to `type_str`,
/// and returns its payload decoded as UTF-8 text. Parse failures are
/// propagated; a missing type is `NotFound`; a non-text payload is
/// `InvalidUtf8`.
pub fn decode_message(file: &Vec<u8>, type_str: &str) -> (r: Result<String, PngError>)
    ensures
        spec_parse(file@) is Err ==> r is Err && r->Err_0 == spec_parse(file@)->Err_0,
        spec_parse(file@) is Ok ==> (match spec_find_chunk(spec_parse(file@)->Ok_0, type_str@) {
            None => r == Err::<String, PngError>(PngError::NotFound),
            Some(cv) => {
                &&& r is Ok <==> valid_utf8(cv.data)
                &&& r is Ok ==> r.unwrap()@ == decode_utf8(cv.data)
                &&& r is Err ==> r->Err_0 == PngError::InvalidUtf8
            },
        }),
{
    let image = match Png::parse(file) {
        Ok(p) => p,
        Err(e) => {
            return Err(e);
        },
    };
    let chunk = match image.chunk_by_type(type_str) {
        Some(c) => c,
        None => {
            return Err(PngError::NotFound);
        },
    };
    chunk.data_as_string()
}

} // verus!

//! One length-prefixed, CRC-checked chunk: type code plus opaque payload.
//!
//! On the wire a chunk is `[4-byte big-endian length L][4-byte type code]
//! [L payload bytes][4-byte big-endian CRC-32 of type and payload]`.

use vstd::prelude::*;
use vstd::utf8::{decode_utf8, valid_utf8};

use crate::chunk_type::{ChunkType, wf_code};
use crate::crc::{crc32_of, crc32_range};
use crate::encoding::{be32, lemma_be32_roundtrip, lemma_u32_be_value, push_all, push_be_u32,
    read_be_u32, u32_be};
use crate::error::PngError;
use crate::text::vec_to_string;

verus! {

/// The mathematical content of a chunk: its type bytes and its payload.
/// Length and CRC are functions of these two.
pub struct ChunkV {
    pub type_bytes: Seq<u8>,
    pub data: Seq<u8>,
}

/// A chunk whose type is four ASCII letters and whose payload length fits
/// the 4-byte length field.
pub open spec fn wf_chunk_v(cv: ChunkV) -> bool {
    &&& wf_code(cv.type_bytes)
    &&& cv.data.len() <= 0xFFFF_FFFF
}

/// The wire form of a chunk: length, type, payload, then the CRC-32 of type
/// and payload.
pub open spec fn chunk_ser(cv: ChunkV) -> Seq<u8> {
    u32_be(cv.data.len() as u32) + cv.type_bytes + cv.data + u32_be(
        crc32_of(cv.type_bytes + cv.data),
    )
}

/// What parsing one chunk at offset `i` of `b` yields: the chunk, or the
/// first failure met while reading length, type code, payload and CRC.
pub open spec fn spec_chunk_parse(b: Seq<u8>, i: int) -> Result<ChunkV, PngError>
    recommends
        0 <= i <= b.len(),
{
    if b.len() < i + 8 {
        Err(PngError::UnexpectedEof)
    } else {
        let l = be32(b.subrange(i, i + 4));
        if !wf_code(b.subrange(i + 4, i + 8)) {
            Err(PngError::InvalidByte)
        } else if b.len() < i + 12 + l {
            Err(PngError::UnexpectedEof)
        } else if be32(b.subrange(i + 8 + l, i + 12 + l)) != crc32_of(
            b.subrange(i + 4, i + 8 + l),
        ) {
            Err(PngError::CrcMismatch)
        } else {
            Ok(ChunkV { type_bytes: b.subrange(i + 4, i + 8), data: b.subrange(i + 8, i + 8 + l) })
        }
    }
}

/// A parsed chunk occupies exactly `12 + L` bytes of the buffer, and its
/// wire form is that very slice: parsing never loses a byte.
pub proof fn lemma_chunk_parse_exact(b: Seq<u8>, i: int)
    requires
        0 <= i <= b.len(),
        spec_chunk_parse(b, i) is Ok,
    ensures
        ({
            let cv = spec_chunk_parse(b, i).unwrap();
            &&& wf_chunk_v(cv)
            &&& cv.data.len() == be32(b.subrange(i, i + 4))
            &&& i + 12 + cv.data.len() <= b.len()
            &&& chunk_ser(cv) == b.subrange(i, i + 12 + cv.data.len())
        }),
{
    let cv = spec_chunk_parse(b, i).unwrap();
    let l = be32(b.subrange(i, i + 4));
    lemma_be32_roundtrip(b.subrange(i, i + 4));
    assert(cv.data.len() == l);
    assert(u32_be(cv.data.len() as u32) == b.subrange(i, i + 4));
    assert(cv.type_bytes + cv.data =~= b.subrange(i + 4, i + 8 + l));
    lemma_be32_roundtrip(b.subrange(i + 8 + l, i + 12 + l));
    assert(u32_be(crc32_of(cv.type_bytes + cv.data)) == b.subrange(i + 8 + l, i + 12 + l));
    assert(chunk_ser(cv) =~= b.subrange(i, i + 12 + l));
}

/// A well-formed chunk's wire form parses back to that very chunk, wherever
/// it lies in a buffer.
pub proof fn lemma_chunk_ser_parses(b: Seq<u8>, i: int, cv: ChunkV)
    requires
        0 <= i,
        i + 12 + cv.data.len() <= b.len(),
        wf_chunk_v(cv),
        b.subrange(i, i + 12 + cv.data.len()) == chunk_ser(cv),
    ensures
        spec_chunk_parse(b, i) == Ok::<ChunkV, PngError>(cv),
{
    let d = cv.data.len() as int;
    let part_len = u32_be(cv.data.len() as u32);
    let part_crc = u32_be(crc32_of(cv.type_bytes + cv.data));
    let w = chunk_ser(cv);
    assert(part_len.len() == 4 && part_crc.len() == 4 && cv.type_bytes.len() == 4);
    assert(w == part_len + cv.type_bytes + cv.data + part_crc);
    assert(w.len() == 12 + d);
    assert forall|k: int| 0 <= k < 12 + d implies b[i + k] == w[k] by {
        assert(b.subrange(i, i + 12 + d)[k] == b[i + k]);
        assert(b.subrange(i, i + 12 + d)[k] == w[k]);
    }
    assert forall|k: int| 0 <= k < 4 implies w[k] == part_len[k] && w[k + 4]
        == cv.type_bytes[k] && w[k + 8 + d] == part_crc[k] by {
        assert(w[k] == ((part_len + cv.type_bytes) + cv.data)[k]);
        assert(w[k + 4] == ((part_len + cv.type_bytes) + cv.data)[k + 4]);
    }
    assert forall|k: int| 0 <= k < d implies w[k + 8] == cv.data[k] by {
        assert(w[k + 8] == ((part_len + cv.type_bytes) + cv.data)[k + 8]);
    }
    assert(b.subrange(i, i + 4) =~= part_len);
    lemma_u32_be_value(cv.data.len() as u32);
    assert(be32(b.subrange(i, i + 4)) == d);
    assert(b.subrange(i + 4, i + 8) =~= cv.type_bytes);
    assert(b.subrange(i + 8, i + 8 + d) =~= cv.data);
    assert(b.subrange(i + 4, i + 8 + d) =~= cv.type_bytes + cv.data);
    assert(b.subrange(i + 8 + d, i + 12 + d) =~= part_crc);
    lemma_u32_be_value(crc32_of(cv.type_bytes + cv.data));
    assert(cv == ChunkV { type_bytes: cv.type_bytes, data: cv.data });
}

/// A well-formed type code with a declared length that overruns the buffer
/// fails with `UnexpectedEof` and nothing else: no byte past the end is read.
pub proof fn lemma_truncated_chunk_eof(b: Seq<u8>, i: int)
    requires
        0 <= i,
        i + 8 <= b.len(),
        wf_code(b.subrange(i + 4, i + 8)),
        b.len() < i + 12 + be32(b.subrange(i, i + 4)),
    ensures
        spec_chunk_parse(b, i) == Err::<ChunkV, PngError>(PngError::UnexpectedEof),
{
}

/// A well-formed chunk has well-formed mathematical content.
pub proof fn lemma_chunk_wf_view(c: &Chunk)
    requires
        c.wf(),
    ensures
        wf_chunk_v(c@),
{
}

/// One chunk: a validated type code, the payload, and the stored length and
/// CRC, which the invariant ties to the payload.
pub struct Chunk {
    chunk_type: ChunkType,
    data: Vec<u8>,
    length: u32,
    crc: u32,
}

impl View for Chunk {
    type V = ChunkV;

    closed spec fn view(&self) -> ChunkV {
        ChunkV { type_bytes: self.chunk_type@, data: self.data@ }
    }
}

impl Chunk {
    /// The stored length is the payload size and the stored CRC is the
    /// recomputed one; constructors establish this and nothing breaks it.
    pub closed spec fn wf(&self) -> bool {
        &&& wf_chunk_v(self@)
        &&& self.length == self@.data.len()
        &&& self.crc == crc32_of(self@.type_bytes + self@.data)
    }

    /// Builds a chunk from a type code and a payload, computing length and
    /// CRC-32 over the type bytes followed by the payload.
    pub fn new(chunk_type: ChunkType, data: Vec<u8>) -> (r: Chunk)
        requires
            chunk_type.wf(),
            data@.len() <= 0xFFFF_FFFF,
        ensures
            r.wf(),
            r@ == (ChunkV { type_bytes: chunk_type@, data: data@ }),
    {
        let mut buf: Vec<u8> = Vec::new();
        let tb = chunk_type.bytes();
        buf.push(tb[0]);
        buf.push(tb[1]);
        buf.push(tb[2]);
        buf.push(tb[3]);
        push_all(&mut buf, &data);
        proof {
            assert(buf@ =~= chunk_type@ + data@);
            assert(buf@.subrange(0, buf@.len() as int) =~= buf@);
        }
        let crc = crc32_range(&buf, 0, buf.len());
        Chunk { chunk_type, length: data.len() as u32, crc, data }
    }

    /// Parses one chunk at `cursor`, returning it with the number of bytes
    /// consumed, which is always `12` plus the payload length.
    pub fn parse(buf: &Vec<u8>, cursor: usize) -> (r: Result<(Chunk, usize), PngError>)
        requires
            cursor <= buf@.len(),
        ensures
            r is Ok <==> spec_chunk_parse(buf@, cursor as int) is Ok,
            r is Ok ==> ({
                let (c, n) = r.unwrap();
                &&& c.wf()
                &&& c@ == spec_chunk_parse(buf@, cursor as int).unwrap()
                &&& n == 12 + c@.data.len()
                &&& cursor + n <= buf@.len()
            }),
            r is Err ==> r->Err_0 == spec_chunk_parse(buf@, cursor as int)->Err_0,
    {
        let n = buf.len();
        if n - cursor < 8 {
            return Err(PngError::UnexpectedEof);
        }
        let l32 = read_be_u32(buf, cursor);
        let t0 = buf[cursor + 4];
        let t1 = buf[cursor + 5];
        let t2 = buf[cursor + 6];
        let t3 = buf[cursor + 7];
        proof {
            assert(buf@.subrange(cursor + 4, cursor + 8) =~= seq![t0, t1, t2, t3]);
        }
        let ct = match ChunkType::from_bytes([t0, t1, t2, t3]) {
            Ok(ct) => ct,
            Err(e) => {
                return Err(e);
            },
        };
        let l = l32 as usize;
        if n - cursor < 12 || n - cursor - 12 < l {
            return Err(PngError::UnexpectedEof);
        }
        let data_end = cursor + 8 + l;
        let computed = crc32_range(buf, cursor + 4, data_end);
        let stored = read_be_u32(buf, data_end);
        if stored != computed {
            return Err(PngError::CrcMismatch);
        }
        let mut data: Vec<u8> = Vec::new();
        let mut j: usize = 0;
        while j < l
            invariant
                j <= l,
                n == buf@.len(),
                cursor + 8 + l <= n,
                data@ == buf@.subrange(cursor + 8, cursor + 8 + j),
            decreases l - j,
        {
            data.push(buf[cursor + 8 + j]);
            proof {
                assert(data@ =~= buf@.subrange(cursor + 8, cursor + 8 + j + 1));
            }
            j += 1;
        }
        let chunk = Chunk { chunk_type: ct, length: l32, crc: stored, data };
        proof {
            assert(chunk@.type_bytes + chunk@.data =~= buf@.subrange(
                cursor + 4,
                cursor + 8 + l,
            ));
        }
        Ok((chunk, 12 + l))
    }

    /// The wire form: big-endian length, type bytes, payload, big-endian CRC.
    pub fn as_bytes(&self) -> (r: Vec<u8>)
        requires
            self.wf(),
        ensures
            r@ == chunk_ser(self@),
    {
        let mut out: Vec<u8> = Vec::new();
        push_be_u32(&mut out, self.length);
        let tb = self.chunk_type.bytes();
        out.push(tb[0]);
        out.push(tb[1]);
        out.push(tb[2]);
        out.push(tb[3]);
        push_all(&mut out, &self.data);
        push_be_u32(&mut out, self.crc);
        proof {
            assert(out@ =~= chunk_ser(self@));
        }
        out
    }

    /// The payload decoded as UTF-8 text; fails on any non-UTF-8 payload.
    pub fn data_as_string(&self) -> (r: Result<String, PngError>)
        ensures
            r is Ok <==> valid_utf8(self@.data),
            r is Ok ==> r.unwrap()@ == decode_utf8(self@.data),
            r is Err ==> r.unwrap_err() == PngError::InvalidUtf8,
    {
        let mut v: Vec<u8> = Vec::new();
        push_all(&mut v, &self.data);
        match vec_to_string(v) {
            Some(s) => Ok(s),
            None => Err(PngError::InvalidUtf8),
        }
    }

    /// The payload size, as stored in the length field.
    pub fn length(&self) -> (r: u32)
        requires
            self.wf(),
        ensures
            r == self@.data.len(),
    {
        self.length
    }

    /// The stored CRC-32, which equals the one recomputed over type bytes
    /// and payload.
    pub fn crc(&self) -> (r: u32)
        requires
            self.wf(),
        ensures
            r == crc32_of(self@.type_bytes + self@.data),
    {
        self.crc
    }

    /// The chunk's type code.
    pub fn chunk_type(&self) -> (r: &ChunkType)
        ensures
            r@ == self@.type_bytes,
    {
        &self.chunk_type
    }

    /// The raw payload bytes.
    pub fn data(&self) -> (r: &Vec<u8>)
        ensures
            r@ == self@.data,
    {
        &self.data
    }
}

} // verus!

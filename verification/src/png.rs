//! The container: a fixed signature followed by an ordered chunk sequence.
//!
//! Parsing walks the buffer in one forward pass and either yields every
//! chunk or propagates the first failure; serializing the result reproduces
//! the accepted buffer byte for byte.

use vstd::prelude::*;
use vstd::string::StringSliceAdditionalSpecFns;

use crate::chunk::{Chunk, ChunkV, chunk_ser, lemma_chunk_parse_exact, lemma_chunk_ser_parses,
    lemma_chunk_wf_view, spec_chunk_parse, wf_chunk_v};
use crate::chunk_type::{is_letter_char, lemma_code_fidelity, wf_code};
use crate::error::PngError;
use crate::text::{code_bytes_of, lemma_code_render_encode, render_code};

verus! {

/// The fixed 8-byte magic sequence that opens every PNG file.
pub open spec fn png_signature() -> Seq<u8> {
    seq![137u8, 80u8, 78u8, 71u8, 13u8, 10u8, 26u8, 10u8]
}

/// The chunk contents of a chunk sequence.
pub open spec fn views_of(cs: Seq<Chunk>) -> Seq<ChunkV> {
    cs.map_values(|c: Chunk| c@)
}

/// The concatenated wire forms of a chunk sequence, in order.
pub open spec fn chunks_ser(cs: Seq<ChunkV>) -> Seq<u8>
    decreases cs.len(),
{
    if cs.len() == 0 {
        Seq::empty()
    } else {
        chunk_ser(cs[0]) + chunks_ser(cs.drop_first())
    }
}

/// Appending a chunk appends its wire form.
pub proof fn lemma_chunks_ser_push(cs: Seq<ChunkV>, cv: ChunkV)
    ensures
        chunks_ser(cs.push(cv)) == chunks_ser(cs) + chunk_ser(cv),
    decreases cs.len(),
{
    if cs.len() == 0 {
        let tail = cs.push(cv).drop_first();
        assert(cs.push(cv)[0] == cv);
        assert(tail =~= Seq::<ChunkV>::empty());
        assert(chunks_ser(tail) == Seq::<u8>::empty());
        assert(chunks_ser(cs.push(cv)) == chunk_ser(cv) + chunks_ser(tail));
        assert(chunks_ser(cs.push(cv)) =~= chunks_ser(cs) + chunk_ser(cv));
    } else {
        assert(cs.push(cv)[0] == cs[0]);
        assert(cs.push(cv).drop_first() =~= cs.drop_first().push(cv));
        lemma_chunks_ser_push(cs.drop_first(), cv);
        assert(chunks_ser(cs.push(cv)) == chunk_ser(cs[0]) + chunks_ser(cs.drop_first().push(cv)));
        assert(chunks_ser(cs.push(cv)) =~= chunks_ser(cs) + chunk_ser(cv));
    }
}

/// The whole wire form of a container: signature, then every chunk.
pub open spec fn png_ser(cs: Seq<ChunkV>) -> Seq<u8> {
    png_signature() + chunks_ser(cs)
}

/// What parsing the chunk region of `b` from offset `i` on yields: every
/// remaining chunk in order, or the first chunk failure.
pub open spec fn spec_parse_chunks(b: Seq<u8>, i: int) -> Result<Seq<ChunkV>, PngError>
    recommends
        0 <= i <= b.len(),
    decreases b.len() - i
        when 0 <= i <= b.len()
{
    if i == b.len() {
        Ok(Seq::empty())
    } else {
        match spec_chunk_parse(b, i) {
            Err(e) => Err(e),
            Ok(cv) => if i + 12 + cv.data.len() <= b.len() {
                match spec_parse_chunks(b, i + 12 + cv.data.len()) {
                    Err(e) => Err(e),
                    Ok(rest) => Ok(seq![cv] + rest),
                }
            } else {
                Err(PngError::UnexpectedEof)
            },
        }
    }
}

/// What parsing a whole buffer yields: the chunk sequence behind a valid
/// signature, or the first failure.
pub open spec fn spec_parse(b: Seq<u8>) -> Result<Seq<ChunkV>, PngError> {
    if b.len() < 8 || b.subrange(0, 8) != png_signature() {
        Err(PngError::InvalidSignature)
    } else {
        spec_parse_chunks(b, 8)
    }
}

/// A successfully parsed chunk region serializes back to that very region.
pub proof fn lemma_parse_chunks_ser(b: Seq<u8>, i: int)
    requires
        0 <= i <= b.len(),
        spec_parse_chunks(b, i) is Ok,
    ensures
        chunks_ser(spec_parse_chunks(b, i)->Ok_0) == b.subrange(i, b.len() as int),
    decreases b.len() - i,
{
    if i == b.len() {
        assert(chunks_ser(spec_parse_chunks(b, i)->Ok_0) =~= b.subrange(i, b.len() as int));
    } else {
        let cv = spec_chunk_parse(b, i)->Ok_0;
        lemma_chunk_parse_exact(b, i);
        let i2 = i + 12 + cv.data.len();
        lemma_parse_chunks_ser(b, i2);
        let rest = spec_parse_chunks(b, i2)->Ok_0;
        assert((seq![cv] + rest)[0] == cv);
        assert((seq![cv] + rest).drop_first() =~= rest);
        assert(chunks_ser(spec_parse_chunks(b, i)->Ok_0) =~= b.subrange(i, b.len() as int));
    }
}

/// Round-trip: serializing a successfully parsed buffer reproduces that
/// buffer, byte for byte.
pub proof fn lemma_parse_round_trip(b: Seq<u8>)
    requires
        spec_parse(b) is Ok,
    ensures
        png_ser(spec_parse(b)->Ok_0) == b,
{
    lemma_parse_chunks_ser(b, 8);
    assert(png_ser(spec_parse(b)->Ok_0) =~= b);
}

/// The converse round-trip for the chunk region: a serialized sequence of
/// well-formed chunks parses back to exactly that sequence.
pub proof fn lemma_ser_parse_chunks(b: Seq<u8>, i: int, cs: Seq<ChunkV>)
    requires
        0 <= i <= b.len(),
        forall|j: int| 0 <= j < cs.len() ==> wf_chunk_v(#[trigger] cs[j]),
        b.subrange(i, b.len() as int) == chunks_ser(cs),
    ensures
        spec_parse_chunks(b, i) == Ok::<Seq<ChunkV>, PngError>(cs),
    decreases cs.len(),
{
    if cs.len() == 0 {
        let sub = b.subrange(i, b.len() as int);
        assert(sub.len() == b.len() - i);
        assert(chunks_ser(cs).len() == 0);
        assert(sub == chunks_ser(cs));
        assert(b.len() - i == 0);
        assert(cs =~= Seq::<ChunkV>::empty());
    } else {
        let cv = cs[0];
        let d = cv.data.len() as int;
        let w = chunk_ser(cv);
        let rest = cs.drop_first();
        let rest_ser = chunks_ser(rest);
        let sub = b.subrange(i, b.len() as int);
        assert(chunks_ser(cs) == w + rest_ser);
        assert(w.len() == 12 + d);
        assert(b.len() - i == w.len() + rest_ser.len());
        assert forall|k: int| 0 <= k < 12 + d implies b.subrange(i, i + 12 + d)[k] == w[k] by {
            assert(sub[k] == b[i + k]);
            assert(b.subrange(i, i + 12 + d)[k] == b[i + k]);
            assert(sub[k] == (w + rest_ser)[k]);
        }
        assert(b.subrange(i, i + 12 + d) =~= w);
        lemma_chunk_ser_parses(b, i, cv);
        assert forall|k: int| 0 <= k < rest_ser.len() implies b.subrange(
            i + 12 + d,
            b.len() as int,
        )[k] == rest_ser[k] by {
            assert(sub[12 + d + k] == b[i + 12 + d + k]);
            assert(b.subrange(i + 12 + d, b.len() as int)[k] == b[i + 12 + d + k]);
            assert(sub[12 + d + k] == (w + rest_ser)[12 + d + k]);
        }
        assert(b.subrange(i + 12 + d, b.len() as int) =~= rest_ser);
        assert forall|j: int| 0 <= j < rest.len() implies wf_chunk_v(#[trigger] rest[j]) by {
            assert(rest[j] == cs[j + 1]);
        }
        lemma_ser_parse_chunks(b, i + 12 + d, rest);
        assert(seq![cv] + rest =~= cs);
    }
}

/// The converse round-trip: serializing any well-formed container yields a
/// buffer that parses back to exactly the same chunk sequence.
pub proof fn lemma_ser_round_trip(cs: Seq<ChunkV>)
    requires
        forall|j: int| 0 <= j < cs.len() ==> wf_chunk_v(#[trigger] cs[j]),
    ensures
        spec_parse(png_ser(cs)) == Ok::<Seq<ChunkV>, PngError>(cs),
{
    let b = png_ser(cs);
    assert(b.subrange(0, 8) =~= png_signature());
    assert(b.subrange(8, b.len() as int) =~= chunks_ser(cs));
    lemma_ser_parse_chunks(b, 8, cs);
}

/// The first chunk of `cs` whose type code renders to `s`, if any.
pub open spec fn spec_find_chunk(cs: Seq<ChunkV>, s: Seq<char>) -> Option<ChunkV>
    decreases cs.len(),
{
    if cs.len() == 0 {
        None
    } else if render_code(cs[0].type_bytes) == s {
        Some(cs[0])
    } else {
        spec_find_chunk(cs.drop_first(), s)
    }
}

/// The lookup misses exactly when no chunk's type renders to the string.
pub proof fn lemma_find_none(cs: Seq<ChunkV>, s: Seq<char>)
    ensures
        spec_find_chunk(cs, s) is None <==> (forall|j: int|
            0 <= j < cs.len() ==> render_code(#[trigger] cs[j].type_bytes) != s),
    decreases cs.len(),
{
    if cs.len() != 0 {
        lemma_find_none(cs.drop_first(), s);
        if render_code(cs[0].type_bytes) != s && (forall|j: int|
            0 <= j < cs.drop_first().len() ==> render_code(
                #[trigger] cs.drop_first()[j].type_bytes,
            ) != s) {
            assert forall|j: int| 0 <= j < cs.len() implies render_code(
                #[trigger] cs[j].type_bytes,
            ) != s by {
                if j > 0 {
                    assert(cs.drop_first()[j - 1] == cs[j]);
                }
            }
        }
    }
}

/// Append then look up: in a container holding no chunk whose type renders
/// to `t`, appending a chunk of type `t` with payload `d` makes the lookup
/// of `t` find exactly that chunk, payload included.
pub proof fn lemma_append_lookup(cs: Seq<ChunkV>, t: Seq<char>, d: Seq<u8>)
    requires
        t.len() == 4,
        forall|i: int| 0 <= i < 4 ==> is_letter_char(#[trigger] t[i]),
        forall|j: int| 0 <= j < cs.len() ==> render_code(#[trigger] cs[j].type_bytes) != t,
    ensures
        spec_find_chunk(cs.push(ChunkV { type_bytes: code_bytes_of(t), data: d }), t) == Some(
            ChunkV { type_bytes: code_bytes_of(t), data: d },
        ),
    decreases cs.len(),
{
    let cv = ChunkV { type_bytes: code_bytes_of(t), data: d };
    lemma_code_fidelity(t);
    if cs.len() == 0 {
        assert(cs.push(cv)[0] == cv);
    } else {
        assert(cs.push(cv)[0] == cs[0]);
        assert(render_code(cs[0].type_bytes) != t);
        assert(cs.push(cv).drop_first() =~= cs.drop_first().push(cv));
        assert forall|j: int| 0 <= j < cs.drop_first().len() implies render_code(
            #[trigger] cs.drop_first()[j].type_bytes,
        ) != t by {
            assert(cs.drop_first()[j] == cs[j + 1]);
        }
        lemma_append_lookup(cs.drop_first(), t, d);
    }
}

/// The container: the signature is fixed, so its state is the ordered chunk
/// list alone.
pub struct Png {
    chunks: Vec<Chunk>,
}

impl View for Png {
    type V = Seq<ChunkV>;

    closed spec fn view(&self) -> Seq<ChunkV> {
        views_of(self.chunks@)
    }
}

impl Png {
    /// Every held chunk is well-formed.
    pub closed spec fn wf(&self) -> bool {
        forall|i: int| 0 <= i < self.chunks@.len() ==> (#[trigger] self.chunks@[i]).wf()
    }

    /// Parses a whole buffer: the signature, then chunks until the buffer is
    /// exhausted. A parsed container serializes back to the very same bytes.
    pub fn parse(buf: &Vec<u8>) -> (r: Result<Png, PngError>)
        ensures
            r is Ok <==> spec_parse(buf@) is Ok,
            r is Ok ==> ({
                let p = r.unwrap();
                &&& p.wf()
                &&& p@ == spec_parse(buf@)->Ok_0
                &&& png_ser(p@) == buf@
            }),
            r is Err ==> r->Err_0 == spec_parse(buf@)->Err_0,
    {
        let n = buf.len();
        if n < 8 {
            return Err(PngError::InvalidSignature);
        }
        if !(buf[0] == 137 && buf[1] == 80 && buf[2] == 78 && buf[3] == 71 && buf[4] == 13
            && buf[5] == 10 && buf[6] == 26 && buf[7] == 10) {
            proof {
                assert(buf@.subrange(0, 8) != png_signature());
            }
            return Err(PngError::InvalidSignature);
        }
        proof {
            assert(buf@.subrange(0, 8) =~= png_signature());
        }
        let mut chunks: Vec<Chunk> = Vec::new();
        let mut cursor: usize = 8;
        while cursor < n
            invariant
                8 <= cursor <= n == buf@.len(),
                buf@.subrange(0, 8) == png_signature(),
                forall|i: int| 0 <= i < chunks@.len() ==> (#[trigger] chunks@[i]).wf(),
                spec_parse_chunks(buf@, cursor as int) is Ok ==> spec_parse_chunks(buf@, 8)
                    == Ok::<Seq<ChunkV>, PngError>(
                    views_of(chunks@) + spec_parse_chunks(buf@, cursor as int)->Ok_0,
                ),
                spec_parse_chunks(buf@, cursor as int) is Err ==> spec_parse_chunks(buf@, 8)
                    == spec_parse_chunks(buf@, cursor as int),
            decreases buf@.len() - cursor,
        {
            match Chunk::parse(buf, cursor) {
                Err(e) => {
                    return Err(e);
                },
                Ok((chunk, consumed)) => {
                    let ghost cv = chunk@;
                    let ghost prev_views = views_of(chunks@);
                    chunks.push(chunk);
                    proof {
                        assert(views_of(chunks@) =~= prev_views + seq![cv]);
                        let next = cursor + consumed;
                        if spec_parse_chunks(buf@, next as int) is Ok {
                            let rest = spec_parse_chunks(buf@, next as int)->Ok_0;
                            assert(spec_parse_chunks(buf@, cursor as int)
                                == Ok::<Seq<ChunkV>, PngError>(seq![cv] + rest));
                            assert(prev_views + (seq![cv] + rest) =~= (prev_views + seq![cv])
                                + rest);
                        }
                    }
                    cursor += consumed;
                },
            }
        }
        proof {
            assert(spec_parse_chunks(buf@, cursor as int) == Ok::<Seq<ChunkV>, PngError>(
                Seq::empty(),
            ));
            assert(views_of(chunks@) + Seq::<ChunkV>::empty() =~= views_of(chunks@));
            lemma_parse_round_trip(buf@);
        }
        Ok(Png { chunks })
    }

    /// The whole wire form: the signature, then every chunk in list order.
    pub fn as_bytes(&self) -> (r: Vec<u8>)
        requires
            self.wf(),
        ensures
            r@ == png_ser(self@),
    {
        let mut out: Vec<u8> = Vec::new();
        out.push(137);
        out.push(80);
        out.push(78);
        out.push(71);
        out.push(13);
        out.push(10);
        out.push(26);
        out.push(10);
        proof {
            assert(out@ =~= png_signature());
            assert(self@.take(0) =~= Seq::<ChunkV>::empty());
        }
        let mut i: usize = 0;
        let len = self.chunks.len();
        while i < len
            invariant
                i <= len == self.chunks@.len(),
                self.wf(),
                out@ == png_signature() + chunks_ser(self@.take(i as int)),
            decreases len - i,
        {
            let cb = self.chunks[i].as_bytes();
            crate::encoding::push_all(&mut out, &cb);
            proof {
                lemma_chunks_ser_push(self@.take(i as int), self@[i as int]);
                assert(self@.take(i + 1) =~= self@.take(i as int).push(self@[i as int]));
            }
            i += 1;
        }
        proof {
            assert(self@.take(len as int) =~= self@);
        }
        out
    }

    /// Appends a chunk at the tail of the list. No reordering is done, even
    /// relative to a trailing end-marker chunk: callers own the ordering.
    pub fn append_chunk(&mut self, chunk: Chunk)
        requires
            old(self).wf(),
            chunk.wf(),
        ensures
            final(self).wf(),
            final(self)@ == old(self)@.push(chunk@),
    {
        let ghost prev_views = views_of(self.chunks@);
        self.chunks.push(chunk);
        proof {
            assert(views_of(self.chunks@) =~= prev_views.push(chunk@));
        }
    }

    /// Linear scan in list order: the first chunk whose type code renders to
    /// `type_str`, or nothing if no chunk's does.
    pub fn chunk_by_type(&self, type_str: &str) -> (r: Option<&Chunk>)
        requires
            self.wf(),
        ensures
            r is Some <==> spec_find_chunk(self@, type_str@) is Some,
            r is Some ==> r.unwrap()@ == spec_find_chunk(self@, type_str@)->0 && r.unwrap().wf(),
    {
        let q = type_str.as_bytes_vec();
        let len = self.chunks.len();
        let mut i: usize = 0;
        proof {
            assert(self@.skip(0) =~= self@);
        }
        while i < len
            invariant
                i <= len == self.chunks@.len(),
                self.wf(),
                q@ == type_str.spec_bytes(),
                spec_find_chunk(self@, type_str@) == spec_find_chunk(
                    self@.skip(i as int),
                    type_str@,
                ),
            decreases len - i,
        {
            let tb = self.chunks[i].chunk_type().bytes();
            let matched = q.len() == 4 && q[0] == tb[0] && q[1] == tb[1] && q[2] == tb[2] && q[3]
                == tb[3];
            proof {
                let cv = self@[i as int];
                assert(self@.skip(i as int)[0] == cv);
                lemma_chunk_wf_view(&self.chunks[i as int]);
                assert(wf_code(cv.type_bytes));
                lemma_code_render_encode(cv.type_bytes, type_str@);
                if matched {
                    assert(q@ =~= cv.type_bytes);
                } else {
                    if q@.len() == 4 {
                        assert(!(q@[0] == cv.type_bytes[0] && q@[1] == cv.type_bytes[1] && q@[2]
                            == cv.type_bytes[2] && q@[3] == cv.type_bytes[3]));
                        assert(q@ != cv.type_bytes);
                    } else {
                        assert(q@ != cv.type_bytes);
                    }
                    assert(render_code(cv.type_bytes) != type_str@);
                    assert(self@.skip(i as int).drop_first() =~= self@.skip(i + 1));
                }
            }
            if matched {
                return Some(&self.chunks[i]);
            }
            i += 1;
        }
        proof {
            assert(self@.skip(len as int) =~= Seq::<ChunkV>::empty());
        }
        None
    }
}

} // verus!

//! Big-endian 4-byte integers, as the chunk format stores lengths and CRCs.

use vstd::prelude::*;

verus! {

/// The value of four bytes read as a big-endian 32-bit integer.
pub open spec fn be32(s: Seq<u8>) -> int
    recommends
        s.len() == 4,
{
    s[0] * 0x100_0000 + s[1] * 0x1_0000 + s[2] * 0x100 + s[3]
}

/// The four big-endian bytes of a 32-bit value.
pub open spec fn u32_be(x: u32) -> Seq<u8> {
    seq![
        (x as int / 0x100_0000) as u8,
        ((x as int / 0x1_0000) % 0x100) as u8,
        ((x as int / 0x100) % 0x100) as u8,
        (x as int % 0x100) as u8,
    ]
}

/// Writing a value and reading it back yields the value, and the two
/// conversions invert each other on 4-byte sequences.
pub proof fn lemma_be32_roundtrip(s: Seq<u8>)
    requires
        s.len() == 4,
    ensures
        0 <= be32(s) < 0x1_0000_0000,
        u32_be(be32(s) as u32) == s,
{
    let a = s[0];
    let b = s[1];
    let c = s[2];
    let d = s[3];
    assert(a * 0x100_0000 + b * 0x1_0000 + c * 0x100 + d < 0x1_0000_0000);
    let x = be32(s) as u32;
    assert(x == a * 0x100_0000 + b * 0x1_0000 + c * 0x100 + d);
    assert(x as int / 0x100_0000 == a && (x as int / 0x1_0000) % 0x100 == b && (x as int
        / 0x100) % 0x100 == c && x as int % 0x100 == d) by (nonlinear_arith)
        requires
            x == a * 0x100_0000 + b * 0x1_0000 + c * 0x100 + d,
            a < 256,
            b < 256,
            c < 256,
            d < 256,
    ;
    assert(u32_be(x) =~= s);
}

/// Reading back the four bytes of a value yields the value.
pub proof fn lemma_u32_be_value(x: u32)
    ensures
        u32_be(x).len() == 4,
        be32(u32_be(x)) == x,
{
    let xi = x as int;
    assert((xi / 0x100_0000) * 0x100_0000 + ((xi / 0x1_0000) % 0x100) * 0x1_0000 + ((xi / 0x100)
        % 0x100) * 0x100 + xi % 0x100 == xi) by (nonlinear_arith)
        requires
            0 <= xi < 0x1_0000_0000,
    ;
    assert(xi / 0x100_0000 < 0x100) by (nonlinear_arith)
        requires
            0 <= xi < 0x1_0000_0000,
    ;
}

/// Reads the big-endian 32-bit value stored at `i`.
pub fn read_be_u32(buf: &Vec<u8>, i: usize) -> (r: u32)
    requires
        i + 4 <= buf@.len(),
    ensures
        r == be32(buf@.subrange(i as int, i + 4)),
{
    let _n = buf.len();
    let b0 = buf[i] as u32;
    let b1 = buf[i + 1] as u32;
    let b2 = buf[i + 2] as u32;
    let b3 = buf[i + 3] as u32;
    let r = b0 * 0x100_0000 + b1 * 0x1_0000 + b2 * 0x100 + b3;
    proof {
        let s = buf@.subrange(i as int, i + 4);
        assert(s[0] == buf@[i as int] && s[1] == buf@[i + 1] && s[2] == buf@[i + 2] && s[3]
            == buf@[i + 3]);
    }
    r
}

/// Appends the four big-endian bytes of `x`.
pub fn push_be_u32(dst: &mut Vec<u8>, x: u32)
    ensures
        final(dst)@ == old(dst)@ + u32_be(x),
{
    dst.push((x / 0x100_0000) as u8);
    dst.push(((x / 0x1_0000) % 0x100) as u8);
    dst.push(((x / 0x100) % 0x100) as u8);
    dst.push((x % 0x100) as u8);
    proof {
        assert(dst@ =~= old(dst)@ + u32_be(x));
    }
}

/// Appends a copy of every byte of `src`.
pub fn push_all(dst: &mut Vec<u8>, src: &Vec<u8>)
    ensures
        final(dst)@ == old(dst)@ + src@,
{
    let mut j: usize = 0;
    while j < src.len()
        invariant
            j <= src@.len(),
            dst@ == old(dst)@ + src@.subrange(0, j as int),
        decreases src@.len() - j,
    {
        dst.push(src[j]);
        proof {
            assert(dst@ =~= old(dst)@ + src@.subrange(0, j + 1));
        }
        j += 1;
    }
    proof {
        assert(src@.subrange(0, src@.len() as int) =~= src@);
    }
}

} // verus!

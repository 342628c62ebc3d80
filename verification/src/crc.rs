//! CRC-32 with the zlib/PNG polynomial, bit by bit over each byte.

use vstd::prelude::*;

verus! {

/// One shift-and-conditionally-xor round of the reflected polynomial.
pub open spec fn crc_bit(c: u32) -> u32 {
    if (c & 1) == 1 {
        0xEDB8_8320u32 ^ (c >> 1u32)
    } else {
        c >> 1u32
    }
}

/// `n` rounds of `crc_bit`.
pub open spec fn crc_bits(c: u32, n: nat) -> u32
    decreases n,
{
    if n == 0 {
        c
    } else {
        crc_bit(crc_bits(c, (n - 1) as nat))
    }
}

/// Folds one byte into the running state: xor it in, then eight rounds.
pub open spec fn crc_byte(c: u32, b: u8) -> u32 {
    crc_bits(c ^ (b as u32), 8)
}

/// The running state after all bytes of `s`, starting from all ones.
pub open spec fn crc_state(s: Seq<u8>) -> u32
    decreases s.len(),
{
    if s.len() == 0 {
        0xFFFF_FFFFu32
    } else {
        crc_byte(crc_state(s.drop_last()), s.last())
    }
}

/// The CRC-32 checksum of `s`: the final state, complemented.
pub open spec fn crc32_of(s: Seq<u8>) -> u32 {
    crc_state(s) ^ 0xFFFF_FFFFu32
}

/// Computes the CRC-32 checksum of `buf[start..end]`.
pub fn crc32_range(buf: &Vec<u8>, start: usize, end: usize) -> (r: u32)
    requires
        start <= end <= buf@.len(),
    ensures
        r == crc32_of(buf@.subrange(start as int, end as int)),
{
    let mut c: u32 = 0xFFFF_FFFFu32;
    let mut i: usize = start;
    while i < end
        invariant
            start <= i <= end <= buf@.len(),
            c == crc_state(buf@.subrange(start as int, i as int)),
        decreases end - i,
    {
        let ghost prev = buf@.subrange(start as int, i as int);
        c = c ^ (buf[i] as u32);
        let ghost c0 = c;
        let mut k: usize = 0;
        while k < 8
            invariant
                k <= 8,
                c == crc_bits(c0, k as nat),
            decreases 8 - k,
        {
            if (c & 1) == 1 {
                c = 0xEDB8_8320u32 ^ (c >> 1u32);
            } else {
                c = c >> 1u32;
            }
            k += 1;
        }
        proof {
            let cur = buf@.subrange(start as int, i + 1);
            assert(cur.drop_last() =~= prev);
            assert(cur.last() == buf@[i as int]);
            assert(c == crc_byte(crc_state(prev), buf@[i as int]));
        }
        i += 1;
    }
    c ^ 0xFFFF_FFFFu32
}

} // verus!

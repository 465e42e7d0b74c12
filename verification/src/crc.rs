//! Checksum verifier: CRC-32, MPEG-2 variant.
//!
//! Polynomial `0x04C11DB7`, initial register all ones, MSB-first per-byte
//! processing, no final inversion.

use vstd::prelude::*;

verus! {

/// One shift-and-conditionally-xor round of the MSB-first CRC register.
pub open spec fn crc_step(c: u32) -> u32 {
    if c & 0x8000_0000u32 != 0u32 {
        (c << 1u32) ^ 0x04C1_1DB7u32
    } else {
        c << 1u32
    }
}

/// The CRC register after `k` rounds starting from `c`.
pub open spec fn crc_rounds(c: u32, k: nat) -> u32
    decreases k,
{
    if k == 0 {
        c
    } else {
        crc_step(crc_rounds(c, (k - 1) as nat))
    }
}

/// The CRC register after absorbing one input byte into `c`.
pub open spec fn crc_push_byte(c: u32, b: u8) -> u32 {
    crc_rounds(c ^ ((b as u32) << 24u32), 8)
}

/// The CRC-32/MPEG-2 checksum of a byte sequence.
pub open spec fn crc32_spec(s: Seq<u8>) -> u32
    decreases s.len(),
{
    if s.len() == 0 {
        0xFFFF_FFFFu32
    } else {
        crc_push_byte(crc32_spec(s.drop_last()), s.last())
    }
}

/// Computes the CRC-32/MPEG-2 checksum of `data`.
pub fn crc32_mpeg2(data: &[u8]) -> (crc: u32)
    ensures
        crc == crc32_spec(data@),
{
    let mut crc: u32 = 0xFFFF_FFFF;
    let mut i: usize = 0;
    while i < data.len()
        invariant
            i <= data@.len(),
            crc == crc32_spec(data@.subrange(0, i as int)),
        decreases data@.len() - i,
    {
        let byte = data[i];
        crc = crc ^ ((byte as u32) << 24u32);
        let ghost start = crc;
        let mut k: usize = 0;
        while k < 8
            invariant
                k <= 8,
                crc == crc_rounds(start, k as nat),
            decreases 8 - k,
    {
            if crc & 0x8000_0000 != 0 {
                crc = (crc << 1u32) ^ 0x04C1_1DB7;
            } else {
                crc = crc << 1u32;
            }
            k += 1;
        }
        proof {
            assert(data@.subrange(0, i + 1).drop_last() =~= data@.subrange(0, i as int));
            assert(data@.subrange(0, i + 1).last() == data@[i as int]);
        }
        i += 1;
    }
    proof {
        assert(data@.subrange(0, data@.len() as int) =~= data@);
    }
    crc
}

} // verus!

//! The fixed 162-bit synchronization pattern and the final merge: each
//! transmitted symbol carries a sync bit in its low position and an
//! interleaved data bit in its high position.

use vstd::prelude::*;

verus! {

/// The synchronization pattern, packed into three words: bit `i` of the
/// pattern is bit `i % 64` of word `i / 64`. The unpacked table is checked
/// against the protocol's published pattern in the test suite.
pub const SYNC_WORD0: u64 = 0x58B3_40A4_07A4_7103;

pub const SYNC_WORD1: u64 = 0xE2CD_C904_5634_9558;

pub const SYNC_WORD2: u64 = 0x0000_0000_6358_0CA0;

/// Bit `i` of the synchronization pattern.
pub open spec fn sync_bit(i: int) -> u8 {
    if i < 64 {
        ((SYNC_WORD0 >> (i as u64)) & 1) as u8
    } else if i < 128 {
        ((SYNC_WORD1 >> ((i - 64) as u64)) & 1) as u8
    } else {
        ((SYNC_WORD2 >> ((i - 128) as u64)) & 1) as u8
    }
}

/// Looks up one bit of the synchronization pattern.
pub fn sync_bit_at(i: usize) -> (r: u8)
    requires
        i < 162,
    ensures
        r == sync_bit(i as int),
        r <= 1,
{
    let w: u64 = if i < 64 {
        SYNC_WORD0 >> (i as u64)
    } else if i < 128 {
        SYNC_WORD1 >> ((i - 64) as u64)
    } else {
        SYNC_WORD2 >> ((i - 128) as u64)
    };
    let b: u64 = w & 1;
    proof {
        assert(w & 1 <= 1) by (bit_vector);
    }
    b as u8
}

/// The synchronization pattern is made of bits.
pub proof fn lemma_sync_bit_range(i: int)
    requires
        0 <= i < 162,
    ensures
        sync_bit(i) <= 1,
{
    if i < 64 {
        let sh = i as u64;
        assert((SYNC_WORD0 >> sh) & 1 <= 1) by (bit_vector);
    } else if i < 128 {
        let sh = (i - 64) as u64;
        assert((SYNC_WORD1 >> sh) & 1 <= 1) by (bit_vector);
    } else {
        let sh = (i - 128) as u64;
        assert((SYNC_WORD2 >> sh) & 1 <= 1) by (bit_vector);
    }
}

/// Bit stream `s` merged with the synchronization pattern: symbol `i` is
/// `sync + 2 * data`, a value in 0..=3.
pub open spec fn merged(s: Seq<u8>) -> Seq<u8> {
    Seq::new(162, |i: int| (sync_bit(i) + 2 * s[i]) as u8)
}

} // verus!

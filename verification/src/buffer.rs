//! The symbol buffer: 162 one-byte slots, filled in generation order by
//! the convolutional encoder, then interleaved and merged in place.

use vstd::prelude::*;

use crate::interleave::{
    interleaved, lemma_hit_count_bound, lemma_rev8_involution, lemma_rev8_only_self_max, rev8,
    reverse_byte, source_index,
};
use crate::interleave::hits_below;
use crate::sync::{merged, sync_bit, sync_bit_at};

verus! {

/// A fixed-size buffer of 162 symbols and the number of slots filled.
pub struct Buffer {
    pub buffer: [u8; 162],
    pub index: usize,
}

impl Buffer {
    pub fn new() -> (r: Self)
        ensures
            r.index == 0,
            r.buffer@ == Seq::new(162, |i: int| 0u8),
    {
        let r = Buffer { buffer: [0u8; 162], index: 0 };
        proof {
            assert(r.buffer@ =~= Seq::new(162, |i: int| 0u8));
        }
        r
    }

    /// Appends one bit at the next free slot.
    pub fn push(&mut self, bit: u8)
        requires
            old(self).index < 162,
        ensures
            final(self).index == old(self).index + 1,
            final(self).buffer@ == old(self).buffer@.update(old(self).index as int, bit),
    {
        self.buffer[self.index] = bit;
        self.index = self.index + 1;
    }

    /// Permutes the buffer by bit-reversed addressing: counting `i` up from
    /// 0, each `i` whose bit reversal `j` is below 162 places the next
    /// unplaced bit, in order, at position `j`.
    pub fn interleave(&mut self)
        ensures
            final(self).buffer@ == interleaved(old(self).buffer@),
            final(self).index == old(self).index,
    {
        let mut out: [u8; 162] = [0u8; 162];
        let mut p: usize = 0;
        let mut i: u8 = 0;
        while i < 255
            invariant
                i <= 255,
                p == hits_below(i as int),
                p <= 162,
                forall|j: int|
                    0 <= j < 162 && (rev8(j as u8) as int) < i ==> out@[j] == old(
                        self,
                    ).buffer@[source_index(j)],
            decreases 255 - i,
        {
            let j = reverse_byte(i);
            proof {
                lemma_rev8_involution(i);
                assert forall|jq: int| 0 <= jq < 162 && #[trigger] rev8(jq as u8) == i implies jq
                    == (j as int) by {
                    lemma_rev8_involution(jq as u8);
                }
            }
            if j < 162 {
                proof {
                    lemma_hit_count_bound(i as int);
                }
                out[j as usize] = self.buffer[p];
                p = p + 1;
            }
            i = i + 1;
        }
        proof {
            assert forall|jq: int| 0 <= jq < 162 implies (#[trigger] rev8(jq as u8) as int)
                < 255 by {
                lemma_rev8_only_self_max(jq as u8);
            }
            assert(out@ =~= interleaved(self.buffer@));
        }
        self.buffer = out;
    }

    /// Merges the synchronization pattern into the buffer: each bit becomes
    /// the symbol `sync + 2 * bit`.
    pub fn sync(&mut self)
        requires
            forall|k: int| 0 <= k < 162 ==> old(self).buffer@[k] <= 1,
        ensures
            final(self).buffer@ == merged(old(self).buffer@),
            final(self).index == old(self).index,
    {
        let mut i: usize = 0;
        while i < 162
            invariant
                i <= 162,
                self.index == old(self).index,
                forall|k: int| 0 <= k < 162 ==> old(self).buffer@[k] <= 1,
                forall|k: int| i <= k < 162 ==> self.buffer@[k] == old(self).buffer@[k],
                forall|k: int| 0 <= k < i ==> self.buffer@[k] == merged(old(self).buffer@)[k],
            decreases 162 - i,
        {
            let s = sync_bit_at(i);
            let v = self.buffer[i];
            self.buffer[i] = s + 2 * v;
            i = i + 1;
        }
        proof {
            assert(self.buffer@ =~= merged(old(self).buffer@));
        }
    }

    /// Hands the finished symbols out.
    pub fn release(self) -> (r: [u8; 162])
        ensures
            r@ == self.buffer@,
    {
        self.buffer
    }
}

} // verus!

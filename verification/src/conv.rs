//! The rate-1/2 convolutional encoder: two 32-bit shift registers with
//! distinct generator polynomials, each emitting one parity bit per input
//! bit.

use vstd::arithmetic::div_mod::{lemma_add_mod_noop, lemma_small_mod};
use vstd::prelude::*;

verus! {

/// Generator polynomial mask of the first register.
pub const POLY0: u32 = 0xF2D0_5351;

/// Generator polynomial mask of the second register.
pub const POLY1: u32 = 0xE461_3C47;

/// Bit `i` of `x`.
pub open spec fn bit_at(x: u32, i: u32) -> u32 {
    (x >> i) & 1
}

/// Number of set bits among the low `n` bits of `x`.
pub open spec fn ones_below(x: u32, n: int) -> int
    decreases n,
{
    if n <= 0 {
        0
    } else {
        ones_below(x, n - 1) + bit_at(x, (n - 1) as u32)
    }
}

/// Parity of `x`: 1 when the number of set bits is odd, else 0.
pub open spec fn parity32(x: u32) -> u8 {
    (ones_below(x, 32) % 2) as u8
}

fn parity(x: u32) -> (r: u8)
    ensures
        r == parity32(x),
        r <= 1,
{
    let mut acc: u32 = 0;
    let mut i: u32 = 0;
    while i < 32
        invariant
            i <= 32,
            acc == ones_below(x, i as int) % 2,
        decreases 32 - i,
    {
        let b: u32 = (x >> i) & 1;
        proof {
            assert((x >> i) & 1 <= 1) by (bit_vector);
            lemma_add_mod_noop(ones_below(x, i as int), b as int, 2);
            lemma_small_mod(b as nat, 2);
        }
        acc = (acc + b) % 2;
        i += 1;
    }
    acc as u8
}

/// The register contents after a bit is shifted into the least significant
/// end; the oldest bit falls off the top.
pub open spec fn shifted(v: u32, bit: u32) -> u32 {
    (v << 1u32) | bit
}

/// One 32-bit shift register holding the most recent input bits; each step
/// reports the parity of the register masked by its generator polynomial.
pub struct ShiftRegister {
    pub value: u32,
    pub and_const: u32,
}

impl ShiftRegister {
    pub fn new(and_const: u32) -> (r: Self)
        ensures
            r.value == 0,
            r.and_const == and_const,
    {
        ShiftRegister { value: 0, and_const }
    }

    pub fn shift(&mut self, bit: u32) -> (parity_bit: u8)
        requires
            bit <= 1,
        ensures
            final(self).value == shifted(old(self).value, bit),
            final(self).and_const == old(self).and_const,
            parity_bit == parity32(final(self).value & final(self).and_const),
            parity_bit <= 1,
    {
        self.value = (self.value << 1u32) | bit;
        parity(self.value & self.and_const)
    }
}

/// The register contents after the first `k` bits of stream `s` have been
/// shifted in, starting from zero.
pub open spec fn reg_value(s: Seq<u8>, k: int) -> u32
    decreases k,
{
    if k <= 0 {
        0u32
    } else {
        shifted(reg_value(s, k - 1), s[k - 1] as u32)
    }
}

/// The low `width` bits of `v`, most significant first.
pub open spec fn field_bits(v: u32, width: nat) -> Seq<u8> {
    Seq::new(width, |i: int| bit_at(v, (width - 1 - i) as u32) as u8)
}

/// The 81-bit source stream: 28 callsign bits, 15 locator bits and 7 power
/// bits, each field most significant bit first, then 31 zero tail bits.
pub open spec fn source_bits(callsign: u32, grid: u16, power: u8) -> Seq<u8> {
    field_bits(callsign, 28) + field_bits(grid as u32, 15) + field_bits(power as u32, 7)
        + Seq::new(31, |i: int| 0u8)
}

/// The convolutional encoding of stream `s`: output bit `2k` is the parity
/// of register 0 and bit `2k + 1` the parity of register 1, each after the
/// first `k + 1` input bits.
pub open spec fn conv_encoded(s: Seq<u8>) -> Seq<u8> {
    Seq::new((2 * s.len()) as nat, |t: int| if t % 2 == 0 {
        parity32(reg_value(s, t / 2 + 1) & POLY0)
    } else {
        parity32(reg_value(s, t / 2 + 1) & POLY1)
    })
}

/// Every convolutionally encoded element is a bit.
pub proof fn lemma_conv_encoded_bits(s: Seq<u8>)
    ensures
        forall|t: int| 0 <= t < conv_encoded(s).len() ==> #[trigger] conv_encoded(s)[t] <= 1,
{
}

} // verus!

//! Encoder for WSPR (Weak Signal Propagation Reporter) transmissions.
//!
//! A callsign, a four-character Maidenhead grid locator and a power level in
//! dBm are turned into the 162 quaternary symbols of one WSPR transmission:
//! the three fields are packed into 81 source bits, run through a rate-1/2
//! convolutional code, interleaved by bit-reversed addressing, and merged
//! with the fixed synchronization pattern.

use vstd::prelude::*;
use vstd::string::StringSliceAdditionalSpecFns;

pub mod buffer;
pub mod conv;
pub mod fields;
pub mod interleave;
pub mod sync;

verus! {

/// Why an input was rejected; one variant per input field.
#[derive(Clone, Copy, Debug, PartialEq, Eq, Structural)]
pub enum Error {
    InvalidPower,
    InvalidGrid,
    InvalidCallsign,
}

/// All three inputs pass their syntactic validation.
pub open spec fn inputs_valid(callsign: Seq<u8>, grid: Seq<u8>, power: u8) -> bool {
    fields::callsign_valid(callsign) && fields::grid_valid(grid) && fields::power_valid(power)
}

/// The 162 symbols of one transmission, as a function of the raw callsign
/// and locator bytes and the power level: the three field codes spread into
/// 81 source bits, convolutionally encoded, interleaved and merged with the
/// synchronization pattern.
pub open spec fn wspr_symbols(callsign: Seq<u8>, grid: Seq<u8>, power: u8) -> Seq<u8> {
    sync::merged(
        interleave::interleaved(
            conv::conv_encoded(
                conv::source_bits(
                    fields::callsign_value(callsign),
                    fields::grid_value(grid),
                    (power + 64) as u8,
                ),
            ),
        ),
    )
}

/// Encodes a callsign, a four-character Maidenhead locator and a power
/// level in dBm into the 162 symbols (each 0 to 3) of one WSPR
/// transmission. Validation failures are reported in field order:
/// callsign, then locator, then power.
pub fn encode(callsign: &str, grid: &str, power: u8) -> (r: Result<[u8; 162], Error>)
    ensures
        r is Ok <==> inputs_valid(callsign.spec_bytes(), grid.spec_bytes(), power),
        r is Ok ==> r->Ok_0@ == wspr_symbols(callsign.spec_bytes(), grid.spec_bytes(), power),
        !fields::callsign_valid(callsign.spec_bytes()) ==> r == Err::<[u8; 162], Error>(
            Error::InvalidCallsign,
        ),
        fields::callsign_valid(callsign.spec_bytes()) && !fields::grid_valid(grid.spec_bytes())
            ==> r == Err::<[u8; 162], Error>(Error::InvalidGrid),
        fields::callsign_valid(callsign.spec_bytes()) && fields::grid_valid(grid.spec_bytes())
            && !fields::power_valid(power) ==> r == Err::<[u8; 162], Error>(Error::InvalidPower),
{
    let c: u32 = match fields::encode_callsign(callsign) {
        Ok(v) => v,
        Err(e) => return Err(e),
    };
    let g: u16 = match fields::encode_grid(grid) {
        Ok(v) => v,
        Err(e) => return Err(e),
    };
    let p: u8 = match fields::encode_power(power) {
        Ok(v) => v,
        Err(e) => return Err(e),
    };
    let ghost src = conv::source_bits(c, g, p);

    let mut reg0 = conv::ShiftRegister::new(conv::POLY0);
    let mut reg1 = conv::ShiftRegister::new(conv::POLY1);
    let mut buf = buffer::Buffer::new();

    let mut i: u32 = 0;
    while i < 28
        invariant
            i <= 28,
            src == conv::source_bits(c, g, p),
            reg0.value == conv::reg_value(src, i as int),
            reg0.and_const == conv::POLY0,
            reg1.value == conv::reg_value(src, i as int),
            reg1.and_const == conv::POLY1,
            buf.index == 2 * i,
            forall|t: int| 0 <= t < 2 * i ==> buf.buffer@[t] == conv::conv_encoded(src)[t],
        decreases 28 - i,
    {
        let bit: u32 = (c >> (27 - i)) & 1;
        proof {
            let sh: u32 = (27 - i) as u32;
            assert((c >> sh) & 1 <= 1) by (bit_vector);
            assert(src[i as int] == conv::field_bits(c, 28)[i as int]);
        }
        buf.push(reg0.shift(bit));
        buf.push(reg1.shift(bit));
        i = i + 1;
    }

    let mut i: u32 = 0;
    while i < 15
        invariant
            i <= 15,
            src == conv::source_bits(c, g, p),
            reg0.value == conv::reg_value(src, 28 + i as int),
            reg0.and_const == conv::POLY0,
            reg1.value == conv::reg_value(src, 28 + i as int),
            reg1.and_const == conv::POLY1,
            buf.index == 56 + 2 * i,
            forall|t: int| 0 <= t < 56 + 2 * i ==> buf.buffer@[t] == conv::conv_encoded(src)[t],
        decreases 15 - i,
    {
        let gw: u32 = g as u32;
        let bit: u32 = (gw >> (14 - i)) & 1;
        proof {
            let sh: u32 = (14 - i) as u32;
            assert((gw >> sh) & 1 <= 1) by (bit_vector);
            assert(src[28 + i as int] == conv::field_bits(g as u32, 15)[i as int]);
        }
        buf.push(reg0.shift(bit));
        buf.push(reg1.shift(bit));
        i = i + 1;
    }

    let mut i: u32 = 0;
    while i < 7
        invariant
            i <= 7,
            src == conv::source_bits(c, g, p),
            reg0.value == conv::reg_value(src, 43 + i as int),
            reg0.and_const == conv::POLY0,
            reg1.value == conv::reg_value(src, 43 + i as int),
            reg1.and_const == conv::POLY1,
            buf.index == 86 + 2 * i,
            forall|t: int| 0 <= t < 86 + 2 * i ==> buf.buffer@[t] == conv::conv_encoded(src)[t],
        decreases 7 - i,
    {
        let pw: u32 = p as u32;
        let bit: u32 = (pw >> (6 - i)) & 1;
        proof {
            let sh: u32 = (6 - i) as u32;
            assert((pw >> sh) & 1 <= 1) by (bit_vector);
            assert(src[43 + i as int] == conv::field_bits(p as u32, 7)[i as int]);
        }
        buf.push(reg0.shift(bit));
        buf.push(reg1.shift(bit));
        i = i + 1;
    }

    let mut i: u32 = 0;
    while i < 31
        invariant
            i <= 31,
            src == conv::source_bits(c, g, p),
            reg0.value == conv::reg_value(src, 50 + i as int),
            reg0.and_const == conv::POLY0,
            reg1.value == conv::reg_value(src, 50 + i as int),
            reg1.and_const == conv::POLY1,
            buf.index == 100 + 2 * i,
            forall|t: int| 0 <= t < 100 + 2 * i ==> buf.buffer@[t] == conv::conv_encoded(src)[t],
        decreases 31 - i,
    {
        let bit: u32 = 0;
        proof {
            assert(src[50 + i as int] == 0u8);
        }
        buf.push(reg0.shift(bit));
        buf.push(reg1.shift(bit));
        i = i + 1;
    }

    proof {
        assert(buf.buffer@ =~= conv::conv_encoded(src));
    }
    buf.interleave();
    proof {
        conv::lemma_conv_encoded_bits(src);
        assert forall|k: int| 0 <= k < 162 implies buf.buffer@[k] <= 1 by {
            interleave::lemma_source_index_in_range(k);
        }
    }
    buf.sync();
    Ok(buf.release())
}

/// Every transmission is exactly 162 symbols, each a value in 0..=3.
pub proof fn lemma_symbols_in_range(callsign: Seq<u8>, grid: Seq<u8>, power: u8)
    ensures
        wspr_symbols(callsign, grid, power).len() == 162,
        forall|i: int| 0 <= i < 162 ==> #[trigger] wspr_symbols(callsign, grid, power)[i] <= 3,
{
    let s = conv::conv_encoded(
        conv::source_bits(
            fields::callsign_value(callsign),
            fields::grid_value(grid),
            (power + 64) as u8,
        ),
    );
    conv::lemma_conv_encoded_bits(s);
    assert forall|i: int| 0 <= i < 162 implies #[trigger] wspr_symbols(callsign, grid, power)[i]
        <= 3 by {
        interleave::lemma_source_index_in_range(i);
        sync::lemma_sync_bit_range(i);
    }
}

/// Encoding is deterministic: the contract of `encode` gives the symbols as
/// a function of the inputs alone, so two successful calls on identical
/// inputs yield identical output.
pub proof fn lemma_encode_deterministic(
    callsign: Seq<u8>,
    grid: Seq<u8>,
    power: u8,
    r1: Seq<u8>,
    r2: Seq<u8>,
)
    requires
        r1 == wspr_symbols(callsign, grid, power),
        r2 == wspr_symbols(callsign, grid, power),
    ensures
        r1 == r2,
{
}

} // verus!

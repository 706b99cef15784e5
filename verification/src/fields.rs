//! Encoders for the three message fields: callsign, grid locator and power.

use vstd::arithmetic::div_mod::lemma_mod_add_multiples_vanish;
use vstd::arithmetic::mul::lemma_mul_upper_bound;
use vstd::prelude::*;
use vstd::string::StringSliceAdditionalSpecFns;

use crate::Error;

verus! {

/// ASCII codes the encoders test against.
pub const SPACE: u8 = 32;

pub const DIGIT_0: u8 = 48;

pub const DIGIT_9: u8 = 57;

pub const UPPER_A: u8 = 65;

pub const UPPER_R: u8 = 82;

pub const UPPER_Z: u8 = 90;

pub const LOWER_A: u8 = 97;

pub const LOWER_R: u8 = 114;


/// `c` is an ASCII decimal digit.
pub open spec fn ascii_digit(c: u8) -> bool {
    DIGIT_0 <= c <= DIGIT_9
}

fn is_digit_byte(c: u8) -> (r: bool)
    ensures
        r == ascii_digit(c),
{
    c >= DIGIT_0 && c <= DIGIT_9
}

// --- Power ---------------------------------------------------------------
/// A power level is valid when it is at most 60 dBm and its last decimal
/// digit is 0, 3 or 7 (the only granularities WSPR can report).
pub open spec fn power_valid(power: u8) -> bool {
    power <= 60 && (power % 10 == 0 || power % 10 == 3 || power % 10 == 7)
}

/// Encodes a power level in dBm into its 7-bit protocol value, `power + 64`.
pub fn encode_power(power: u8) -> (r: Result<u8, Error>)
    ensures
        r == if power_valid(power) {
            Ok::<u8, Error>((power + 64) as u8)
        } else {
            Err::<u8, Error>(Error::InvalidPower)
        },
{
    let rem = power % 10;
    if power <= 60 && (rem == 0 || rem == 3 || rem == 7) {
        Ok(power + 64)
    } else {
        Err(Error::InvalidPower)
    }
}

// --- Grid locator --------------------------------------------------------
/// `c` is a letter a grid locator may use in its first two positions:
/// `A` to `R` in either case.
pub open spec fn grid_letter(c: u8) -> bool {
    (UPPER_A <= c <= UPPER_R) || (LOWER_A <= c <= LOWER_R)
}

/// Numeric value of one locator character: letters `A`-`R` (either case)
/// count 0-17, digits count 0-9.
pub open spec fn grid_char_value(c: u8) -> int {
    if LOWER_A <= c <= LOWER_R {
        c - LOWER_A
    } else if UPPER_A <= c <= UPPER_R {
        c - UPPER_A
    } else {
        c - DIGIT_0
    }
}

/// A locator is valid when it is exactly four characters: two letters in
/// `A`-`R` (case-insensitive) followed by two decimal digits.
pub open spec fn grid_valid(s: Seq<u8>) -> bool {
    &&& s.len() == 4
    &&& grid_letter(s[0])
    &&& grid_letter(s[1])
    &&& ascii_digit(s[2])
    &&& ascii_digit(s[3])
}

/// The 15-bit locator code of a valid locator.
pub open spec fn grid_value(s: Seq<u8>) -> u16 {
    ((179 - 10 * grid_char_value(s[0]) - grid_char_value(s[2])) * 180 + 10 * grid_char_value(s[1])
        + grid_char_value(s[3])) as u16
}

fn is_grid_letter(c: u8) -> (r: bool)
    ensures
        r == grid_letter(c),
{
    (c >= UPPER_A && c <= UPPER_R) || (c >= LOWER_A && c <= LOWER_R)
}

/// Encodes one locator character into its numeric value.
pub fn encode_grid_char(c: u8) -> (r: Result<u8, Error>)
    ensures
        r == if grid_letter(c) || ascii_digit(c) {
            Ok::<u8, Error>(grid_char_value(c) as u8)
        } else {
            Err::<u8, Error>(Error::InvalidGrid)
        },
{
    if c >= UPPER_A && c <= UPPER_R {
        Ok(c - UPPER_A)
    } else if c >= LOWER_A && c <= LOWER_R {
        Ok(c - LOWER_A)
    } else if c >= DIGIT_0 && c <= DIGIT_9 {
        Ok(c - DIGIT_0)
    } else {
        Err(Error::InvalidGrid)
    }
}

/// Encodes a four-character Maidenhead locator into its 15-bit code.
pub fn encode_grid(grid: &str) -> (r: Result<u16, Error>)
    ensures
        r == if grid_valid(grid.spec_bytes()) {
            Ok::<u16, Error>(grid_value(grid.spec_bytes()))
        } else {
            Err::<u16, Error>(Error::InvalidGrid)
        },
{
    let g: &[u8] = grid.as_bytes();
    if g.len() != 4 {
        return Err(Error::InvalidGrid);
    }
    let b0 = g[0];
    let b1 = g[1];
    let b2 = g[2];
    let b3 = g[3];
    if !is_grid_letter(b0) || !is_grid_letter(b1) || !is_digit_byte(b2) || !is_digit_byte(b3) {
        return Err(Error::InvalidGrid);
    }
    let first = match encode_grid_char(b0) {
        Ok(v) => v as u16,
        Err(e) => return Err(e),
    };
    let second = match encode_grid_char(b1) {
        Ok(v) => v as u16,
        Err(e) => return Err(e),
    };
    let third = match encode_grid_char(b2) {
        Ok(v) => v as u16,
        Err(e) => return Err(e),
    };
    let fourth = match encode_grid_char(b3) {
        Ok(v) => v as u16,
        Err(e) => return Err(e),
    };
    let result = (179 - 10 * first - third) * 180 + 10 * second + fourth;
    Ok(result)
}

// --- Callsign ------------------------------------------------------------
/// `c` may appear in a padded callsign: a space, a digit, or an uppercase
/// letter.
pub open spec fn callsign_char(c: u8) -> bool {
    c == SPACE || ascii_digit(c) || (UPPER_A <= c <= UPPER_Z)
}

/// Numeric value of one padded-callsign character: digits count 0-9,
/// letters count 10-35, the space counts 36.
pub open spec fn callsign_char_value(c: u8) -> u32 {
    if c == SPACE {
        36u32
    } else if ascii_digit(c) {
        (c - DIGIT_0) as u32
    } else {
        (c - UPPER_A + 10) as u32
    }
}

/// Index at which the raw callsign is copied into the six-character padded
/// form. Lengths 3-4 take a leading space unless the third character is
/// already a digit; length 5 takes one exactly when the second character is
/// a digit; length 6 is used unchanged.
pub open spec fn pad_start(s: Seq<u8>) -> int {
    if s.len() <= 4 {
        if ascii_digit(s[2]) {
            0
        } else {
            1
        }
    } else if s.len() == 5 {
        if ascii_digit(s[1]) {
            1
        } else {
            0
        }
    } else {
        0
    }
}

/// The callsign padded with spaces to exactly six characters.
pub open spec fn padded_callsign(s: Seq<u8>) -> Seq<u8> {
    Seq::new(6, |i: int| if pad_start(s) <= i < pad_start(s) + s.len() {
        s[i - pad_start(s)]
    } else {
        SPACE
    })
}

/// A callsign is valid when it is three to six characters long, every
/// padded character is a space, a digit or an uppercase letter, and the
/// third padded character is a digit.
pub open spec fn callsign_valid(s: Seq<u8>) -> bool {
    &&& 3 <= s.len() <= 6
    &&& ascii_digit(padded_callsign(s)[2])
    &&& forall|i: int| 0 <= i < 6 ==> callsign_char(#[trigger] padded_callsign(s)[i])
}

/// Per-position multiplier of the callsign folding rule.
pub open spec fn fold_scalar(i: int) -> u32 {
    if i == 0 {
        0u32
    } else if i == 1 {
        36u32
    } else if i == 2 {
        10u32
    } else {
        27u32
    }
}

/// Per-position subtraction of the callsign folding rule.
pub open spec fn fold_subtract(i: int) -> u32 {
    if i <= 2 {
        0u32
    } else {
        10u32
    }
}

/// One step of the callsign fold. The accumulator is carried modulo 2^32,
/// so the fold is total; valid callsigns of the usual letter/digit shape
/// never wrap.
pub open spec fn fold_step(n: u32, scalar: u32, value: u32, subtract: u32) -> u32 {
    (((n * scalar + value - subtract) % 0x1_0000_0000) as u32)
}

/// The fold of the first `k` characters of a padded callsign.
pub open spec fn callsign_fold(s: Seq<u8>, k: int) -> u32
    decreases k,
{
    if k <= 0 {
        0u32
    } else {
        fold_step(
            callsign_fold(s, k - 1),
            fold_scalar(k - 1),
            callsign_char_value(s[k - 1]),
            fold_subtract(k - 1),
        )
    }
}

/// The 28-bit callsign code of a valid callsign.
pub open spec fn callsign_value(s: Seq<u8>) -> u32 {
    callsign_fold(padded_callsign(s), 6)
}

fn fold_scalar_exec(i: usize) -> (r: u32)
    requires
        i < 6,
    ensures
        r == fold_scalar(i as int),
{
    if i == 0 {
        0
    } else if i == 1 {
        36
    } else if i == 2 {
        10
    } else {
        27
    }
}

fn fold_subtract_exec(i: usize) -> (r: u32)
    requires
        i < 6,
    ensures
        r == fold_subtract(i as int),
{
    if i <= 2 {
        0
    } else {
        10
    }
}

fn fold_step_exec(n: u32, scalar: u32, value: u32, subtract: u32) -> (r: u32)
    ensures
        r == fold_step(n, scalar, value, subtract),
{
    proof {
        lemma_mul_upper_bound(n as int, u32::MAX as int, scalar as int, u32::MAX as int);
    }
    let t: u64 = (n as u64) * (scalar as u64) + (value as u64);
    let s: u64 = subtract as u64;
    let w: u64 = if t >= s {
        t - s
    } else {
        t + 0x1_0000_0000 - s
    };
    proof {
        if t < s {
            lemma_mod_add_multiples_vanish(n * scalar + value - subtract, 0x1_0000_0000);
        }
    }
    (w % 0x1_0000_0000) as u32
}

/// Encodes one padded-callsign character into its numeric value.
pub fn encode_callsign_char(c: u8) -> (r: Result<u32, Error>)
    ensures
        r == if callsign_char(c) {
            Ok::<u32, Error>(callsign_char_value(c))
        } else {
            Err::<u32, Error>(Error::InvalidCallsign)
        },
{
    if c == SPACE {
        Ok(36)
    } else if c >= DIGIT_0 && c <= DIGIT_9 {
        Ok((c - DIGIT_0) as u32)
    } else if c >= UPPER_A && c <= UPPER_Z {
        Ok((c - UPPER_A) as u32 + 10)
    } else {
        Err(Error::InvalidCallsign)
    }
}

/// Encodes a callsign of three to six characters into its 28-bit code.
pub fn encode_callsign(callsign: &str) -> (r: Result<u32, Error>)
    ensures
        r == if callsign_valid(callsign.spec_bytes()) {
            Ok::<u32, Error>(callsign_value(callsign.spec_bytes()))
        } else {
            Err::<u32, Error>(Error::InvalidCallsign)
        },
{
    let ghost s = callsign.spec_bytes();
    let cs: &[u8] = callsign.as_bytes();
    let length: usize = cs.len();
    if length < 3 || length > 6 {
        return Err(Error::InvalidCallsign);
    }
    // Where in the padded form the raw callsign starts.
    let start: usize = if length <= 4 {
        if is_digit_byte(cs[2]) {
            0
        } else {
            1
        }
    } else if length == 5 {
        if is_digit_byte(cs[1]) {
            1
        } else {
            0
        }
    } else {
        0
    };
    assert(start == pad_start(s));
    assert(start + length <= 6);

    let mut padded: [u8; 6] = [SPACE; 6];
    let mut k: usize = 0;
    while k < length
        invariant
            k <= length,
            3 <= length <= 6,
            start + length <= 6,
            cs@ == s,
            length == s.len(),
            padded@.len() == 6,
            forall|j: int| 0 <= j < 6 && !(start <= j < start + k) ==> padded@[j] == SPACE,
            forall|j: int| start <= j < start + k ==> padded@[j] == s[j - start],
        decreases length - k,
    {
        padded[start + k] = cs[k];
        k += 1;
    }
    proof {
        assert(padded@ =~= padded_callsign(s));
    }

    // The third padded character must be a digit.
    if !is_digit_byte(padded[2]) {
        return Err(Error::InvalidCallsign);
    }

    let mut n: u32 = 0;
    let mut i: usize = 0;
    while i < 6
        invariant
            i <= 6,
            s == callsign.spec_bytes(),
            padded@ == padded_callsign(s),
            n == callsign_fold(padded@, i as int),
            forall|j: int| 0 <= j < i ==> callsign_char(#[trigger] padded@[j]),
        decreases 6 - i,
    {
        let d: u32 = match encode_callsign_char(padded[i]) {
            Ok(d) => d,
            Err(e) => {
                proof {
                    assert(!callsign_char(padded_callsign(s)[i as int]));
                }
                return Err(e);
            },
        };
        let scalar: u32 = fold_scalar_exec(i);
        let subtract: u32 = fold_subtract_exec(i);
        n = fold_step_exec(n, scalar, d, subtract);
        i += 1;
    }
    Ok(n)
}

} // verus!

use wspr::fields::{encode_callsign, encode_grid, encode_power};
use wspr::{encode, Error};

#[test]
fn test_encode_callsign() {
    assert_eq!(encode_callsign("  9   "), Ok(262374389));
    assert_eq!(encode_callsign("KA1BCD"), Ok(143706369));
}

#[test]
fn test_encode_grid() {
    assert_eq!(encode_grid("AA00"), Ok(32220));
    assert_eq!(encode_grid("RR99"), Ok(179));

    assert_eq!(encode_grid("Z"), Err(Error::InvalidGrid));
    assert_eq!(encode_grid("ZZ"), Err(Error::InvalidGrid));
    assert_eq!(encode_grid("ZZ11"), Err(Error::InvalidGrid));
}

#[test]
fn test_encode_power() {
    // Too much power!
    assert_eq!(encode_power(61), Err(Error::InvalidPower));

    for power in 0..=60 {
        let rem = power % 10;
        let result = encode_power(power);
        if rem == 0 || rem == 3 || rem == 7 {
            assert_eq!(result, Ok(power + 64));
        } else {
            // doesn't end in 0, 3 or 7
            assert_eq!(result, Err(Error::InvalidPower));
        }
    }
}

#[test]
fn test_encode_wspr() {
    assert_eq!(
        encode("K1A", "FN34", 33),
        Ok([
            3, 3, 0, 0, 2, 2, 0, 0, 1, 2, 0, 0, 1, 1, 1, 0, 2, 0, 3, 0, 0, 3, 0, 1, 1, 3, 3, 0, 0,
            0, 0, 2, 0, 2, 1, 0, 0, 3, 2, 1, 2, 0, 2, 0, 0, 0, 3, 0, 1, 3, 0, 2, 3, 1, 2, 3, 0, 2,
            0, 3, 3, 0, 1, 2, 2, 0, 0, 1, 3, 2, 1, 0, 3, 2, 3, 2, 1, 0, 0, 3, 2, 2, 1, 2, 1, 1, 0,
            0, 0, 1, 1, 0, 3, 2, 3, 2, 2, 2, 3, 0, 2, 2, 0, 0, 1, 2, 2, 1, 2, 0, 1, 3, 1, 2, 3, 3,
            0, 0, 1, 1, 2, 3, 2, 2, 0, 3, 1, 3, 2, 2, 0, 2, 0, 3, 0, 3, 2, 0, 1, 1, 2, 2, 0, 0, 2,
            2, 2, 1, 3, 2, 3, 2, 3, 1, 2, 0, 0, 3, 1, 2, 2, 2
        ])
    );

    assert_eq!(
        encode("N6AB", "CM87", 0),
        Ok([
            3, 1, 0, 0, 2, 2, 0, 2, 1, 0, 2, 0, 1, 3, 3, 0, 2, 0, 3, 0, 0, 1, 2, 1, 3, 1, 1, 2, 0,
            2, 0, 0, 0, 2, 3, 2, 0, 1, 0, 3, 2, 0, 0, 0, 0, 2, 1, 0, 1, 3, 2, 0, 3, 1, 2, 1, 2, 0,
            2, 3, 3, 0, 3, 0, 2, 2, 2, 3, 3, 0, 3, 2, 3, 2, 3, 2, 3, 0, 2, 1, 2, 2, 1, 0, 1, 3, 2,
            2, 0, 1, 1, 0, 1, 2, 1, 0, 2, 2, 1, 0, 0, 2, 2, 0, 1, 0, 2, 3, 0, 2, 1, 1, 1, 0, 3, 3,
            2, 0, 3, 1, 0, 3, 2, 0, 0, 3, 3, 1, 2, 2, 2, 2, 2, 3, 0, 1, 2, 0, 1, 1, 0, 2, 2, 0, 2,
            2, 2, 3, 3, 2, 1, 2, 1, 3, 0, 0, 0, 3, 1, 0, 2, 2
        ])
    );

    assert_eq!(
        encode("G1ABC", "IO83", 37),
        Ok([
            3, 3, 0, 0, 0, 2, 0, 0, 1, 0, 2, 0, 1, 1, 3, 2, 2, 2, 3, 2, 2, 1, 0, 1, 1, 3, 1, 2, 2,
            2, 0, 0, 0, 0, 3, 0, 0, 1, 0, 3, 0, 2, 2, 2, 0, 2, 3, 2, 1, 3, 2, 2, 3, 3, 0, 1, 0, 0,
            0, 1, 3, 2, 3, 2, 2, 2, 0, 1, 1, 2, 3, 0, 3, 0, 1, 0, 3, 0, 0, 1, 2, 2, 3, 2, 3, 3, 0,
            0, 2, 3, 1, 2, 1, 0, 1, 2, 2, 2, 1, 0, 2, 0, 2, 2, 3, 2, 0, 1, 0, 0, 3, 1, 1, 2, 3, 3,
            2, 2, 1, 1, 2, 1, 2, 0, 0, 1, 3, 3, 2, 0, 0, 2, 2, 1, 2, 3, 2, 0, 1, 1, 2, 2, 2, 2, 2,
            0, 2, 3, 3, 2, 1, 2, 1, 3, 0, 2, 2, 3, 3, 2, 2, 0
        ])
    );

    assert_eq!(
        encode("KA1BCD", "AA00", 33),
        Ok([
            3, 3, 2, 2, 0, 2, 0, 2, 3, 2, 0, 2, 1, 1, 1, 0, 0, 2, 1, 0, 2, 3, 2, 1, 1, 1, 1, 0, 0,
            2, 0, 2, 2, 0, 3, 2, 2, 3, 2, 3, 2, 2, 2, 0, 2, 0, 3, 0, 3, 1, 0, 2, 3, 1, 0, 3, 2, 2,
            0, 1, 3, 2, 1, 2, 0, 2, 0, 3, 3, 0, 3, 2, 1, 2, 1, 0, 3, 0, 2, 3, 0, 0, 3, 0, 3, 3, 2,
            0, 2, 1, 1, 0, 3, 0, 3, 2, 2, 0, 3, 2, 0, 0, 2, 0, 3, 2, 0, 1, 2, 2, 1, 3, 1, 2, 1, 3,
            2, 0, 1, 1, 2, 3, 0, 0, 2, 1, 3, 3, 2, 0, 2, 2, 2, 3, 0, 1, 2, 2, 1, 1, 0, 2, 0, 0, 0,
            0, 2, 3, 1, 2, 1, 2, 3, 3, 2, 2, 2, 3, 1, 2, 0, 2
        ])
    );
}

#[test]
fn test_encode_repeat_identical() {
    // No hidden state: two calls on identical inputs agree bit for bit.
    let a = encode("K1A", "FN34", 33);
    let b = encode("K1A", "FN34", 33);
    assert_eq!(a, b);
    let c = encode("KA1BCD", "AA00", 33);
    let d = encode("KA1BCD", "AA00", 33);
    assert_eq!(c, d);
}

#[test]
fn test_encode_symbol_range() {
    // Every valid encoding is 162 symbols, each a tone index 0 to 3.
    let symbols = encode("N6AB", "CM87", 0).unwrap();
    assert_eq!(symbols.len(), 162);
    for &s in symbols.iter() {
        assert!(s <= 3);
    }
}

#[test]
fn test_encode_error_order() {
    // The first failing field wins: callsign, then grid, then power.
    assert_eq!(encode("!!", "ZZZZ", 99), Err(Error::InvalidCallsign));
    assert_eq!(encode("K1A", "ZZZZ", 99), Err(Error::InvalidGrid));
    assert_eq!(encode("K1A", "FN34", 99), Err(Error::InvalidPower));
    assert_eq!(encode("K1A", "FN34", 34), Err(Error::InvalidPower));
}

#[test]
fn test_callsign_padding_scheme() {
    // Padding inserts spaces so the third padded character is a digit; a
    // hand-padded six-character form encodes identically.
    assert_eq!(encode_callsign("K1A"), encode_callsign(" K1A  "));
    assert_eq!(encode_callsign("K1AB"), encode_callsign(" K1AB "));
    assert_eq!(encode_callsign("KA1B"), encode_callsign("KA1B  "));
    assert_eq!(encode_callsign("K1ABC"), encode_callsign(" K1ABC"));
    assert_eq!(encode_callsign("KA1BC"), encode_callsign("KA1BC "));
}

#[test]
fn test_callsign_invalid() {
    // Too short, too long, lowercase, and no digit in the third padded slot.
    assert_eq!(encode_callsign("K1"), Err(Error::InvalidCallsign));
    assert_eq!(encode_callsign("KA1BCDE"), Err(Error::InvalidCallsign));
    assert_eq!(encode_callsign("ka1bcd"), Err(Error::InvalidCallsign));
    assert_eq!(encode_callsign("ABCDEF"), Err(Error::InvalidCallsign));
}

#[test]
fn test_grid_case_and_positions() {
    // Locator letters are case-insensitive; classes are fixed per position.
    assert_eq!(encode_grid("aa00"), Ok(32220));
    assert_eq!(encode_grid("rr99"), Ok(179));
    assert_eq!(encode_grid("A0A0"), Err(Error::InvalidGrid));
    assert_eq!(encode_grid("11AA"), Err(Error::InvalidGrid));
    assert_eq!(encode_grid("FN3 "), Err(Error::InvalidGrid));
}

#[test]
fn test_power_boundaries() {
    assert_eq!(encode_power(0), Ok(64));
    assert_eq!(encode_power(60), Ok(124));
    assert_eq!(encode_power(67), Err(Error::InvalidPower));
    assert_eq!(encode_power(255), Err(Error::InvalidPower));
}

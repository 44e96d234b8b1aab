use vtable_trace::address::{parse_hex_usize, read_number, NumberError};
use vtable_trace::text::{push_hex, push_hex16};

/// The same reading, by the means of the standard library.
fn by_std(s: &str) -> Result<usize, String> {
    let s = s.trim_start_matches("0x").trim_start_matches("0X").replace('_', "");
    usize::from_str_radix(&s, 16).map_err(|e| format!("not a hex address: {e}"))
}

#[test]
fn documented_addresses_are_read() {
    assert_eq!(parse_hex_usize("0x00000200_abcd1000"), Ok(0x0000_0200_abcd_1000));
    assert_eq!(parse_hex_usize("0x7ff74a01b540"), Ok(0x7ff7_4a01_b540));
}

#[test]
fn addresses_are_read_as_the_standard_library_reads_them() {
    let inputs = [
        "", "_", "0x", "0X", "0x_", "0", "+", "-", "0x+", "0x-", "+1", "-1", "0x+1f", "0x-1f", "++1", "1+",
        "0x0x12", "0X0X12", "0x0X12", "0X0x12", "0x0X0x12", "x12", "0_x12", "0x1_2_", "__1__", "fF", "DeadBeef",
        "0x ffff", " ff", "ff ", "0xg", "g", "12g4", "ffffffffffffffff", "0x1_0000_0000_0000_0000",
        "00000000000000000000000000000000001", "fffffffffffffffff", "fffffffffffffffffz", "zfffffffffffffffff",
        "10000000000000000g", "1000000000000000g", "\u{e9}", "1\u{e9}", "\u{ff11}", "0x\u{2014}", "0x0", "@", "`", "/",
        ":", "G", "+_1", "_+1", "0x+", "+ffffffffffffffff", "+10000000000000000",
    ];
    for s in inputs {
        assert_eq!(parse_hex_usize(s), by_std(s), "{s:?}");
    }
}

#[test]
fn each_refusal_has_its_message() {
    assert_eq!(
        parse_hex_usize("0x"),
        Err("not a hex address: cannot parse integer from empty string".to_string())
    );
    assert_eq!(
        parse_hex_usize("0xzz"),
        Err("not a hex address: invalid digit found in string".to_string())
    );
    assert_eq!(
        parse_hex_usize("0x1_0000_0000_0000_0000"),
        Err("not a hex address: number too large to fit in target type".to_string())
    );
}

#[test]
fn numbers_are_refused_for_the_first_fault() {
    let of = |s: &str| read_number(&s.chars().collect());
    assert_eq!(of(""), Err(NumberError::Empty));
    assert_eq!(of("+"), Err(NumberError::InvalidDigit));
    assert_eq!(of("10000000000000000g"), Err(NumberError::TooLarge));
    assert_eq!(of("1000000000000000g"), Err(NumberError::InvalidDigit));
    assert_eq!(of("+ff"), Ok(255));
}

#[test]
fn underscores_are_ignored() {
    assert_eq!(parse_hex_usize("0x_1__2_3_"), parse_hex_usize("0x123"));
}

#[test]
fn printed_addresses_are_read_back() {
    for v in [0usize, 1, 15, 16, 0x7ff7_4a01_b540, usize::MAX] {
        let mut short = String::from("0x");
        push_hex(&mut short, v as u64);
        assert_eq!(parse_hex_usize(&short), Ok(v));
        let mut long = String::from("0x");
        push_hex16(&mut long, v as u64);
        assert_eq!(parse_hex_usize(&long), Ok(v));
    }
}

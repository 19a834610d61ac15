use gfoc::text::{int_error_message, parse_u32, push_decimal, IntErrorKind};

#[test]
fn decimal_text() {
    for n in [0u32, 7, 10, 99, 100, 115200, 4294967295] {
        let mut s = String::from("x");
        push_decimal(&mut s, n);
        assert_eq!(s, format!("x{n}"));
    }
}

#[test]
fn parse_matches_the_standard_library() {
    let cases = [
        "", "+", "-", "0", "+7", "-7", "115200", "0115200", "4294967295", "4294967296",
        "99999999999", "12a", "9999999999a", "a9999999999", " 1", "٣", "+-1",
    ];
    for c in cases {
        let expected = c.parse::<u32>().map_err(|e| e.to_string());
        let got = parse_u32(c).map_err(int_error_message);
        assert_eq!(got, expected, "{c:?}");
    }
}

#[test]
fn parse_reads_back_formatting() {
    for n in [0u32, 1, 42, 65535, 1_000_000, u32::MAX] {
        let mut s = String::new();
        push_decimal(&mut s, n);
        assert_eq!(parse_u32(&s), Ok(n));
    }
    assert_eq!(parse_u32("4294967296"), Err(IntErrorKind::PosOverflow));
}

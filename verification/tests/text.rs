use peoplegen::numlib::{digit_value, invalid_number, parse_sign_magnitude};
use peoplegen::output::decimal_string;
use peoplegen::ssn::format_ssn;
use peoplegen::text::{decimal_len, digit_str, push_decimal, push_grouped, push_padded};

#[test]
fn decimal_digits() {
    for (n, text) in [(0u64, "0"), (7, "7"), (10, "10"), (909, "909"), (u64::MAX, "18446744073709551615")] {
        let mut out = String::from(">");
        push_decimal(&mut out, n);
        assert_eq!(out, format!(">{}", text));
        assert_eq!(decimal_len(n), text.len());
        assert_eq!(decimal_string(n), text);
    }
    for d in 0..10u64 {
        assert_eq!(digit_str(d), format!("{}", d));
    }
}

#[test]
fn zero_padded_digits() {
    for (n, width, text) in [
        (0u64, 0usize, "0"),
        (0, 1, "0"),
        (0, 4, "0000"),
        (7, 2, "07"),
        (42, 2, "42"),
        (123, 2, "123"),
        (999, 3, "999"),
        (1000, 3, "1000"),
        (5, 25, "0000000000000000000000005"),
    ] {
        let mut out = String::from("x");
        push_padded(&mut out, n, width);
        assert_eq!(out, format!("x{}", text));
    }
}

#[test]
fn digits_in_groups_of_three() {
    for (n, text) in [
        (0u64, "0"),
        (12, "12"),
        (999, "999"),
        (1000, "1,000"),
        (12345, "12,345"),
        (100_000, "100,000"),
        (1_000_000, "1,000,000"),
        (1_002_003, "1,002,003"),
        (u64::MAX, "18,446,744,073,709,551,615"),
    ] {
        let mut out = String::from("n=");
        push_grouped(&mut out, n);
        assert_eq!(out, format!("n={}", text));
    }
}

#[test]
fn identifier_text() {
    assert_eq!(format_ssn(900, 1, 1), "900-01-0001");
    assert_eq!(format_ssn(666, 99, 9999), "666-99-9999");
    assert_eq!(format_ssn(7, 5, 42), "007-05-0042");
    assert_eq!(format_ssn(0, 0, 0), "000-00-0000");
    assert_eq!(format_ssn(12345, 678, 98765), "12345-678-98765");
}

#[test]
fn digits_of_a_base() {
    assert_eq!(digit_value(b'0', 2), Some(0));
    assert_eq!(digit_value(b'1', 2), Some(1));
    assert_eq!(digit_value(b'2', 2), None);
    assert_eq!(digit_value(b'9', 10), Some(9));
    assert_eq!(digit_value(b'a', 10), None);
    assert_eq!(digit_value(b'a', 11), Some(10));
    assert_eq!(digit_value(b'F', 16), Some(15));
    assert_eq!(digit_value(b'z', 36), Some(35));
    assert_eq!(digit_value(b'Z', 36), Some(35));
    assert_eq!(digit_value(b'z', 35), None);
    for byte in [b'/', b':', b'@', b'[', b'`', b'{', b' ', b'+', b'-', 0u8, 127] {
        assert_eq!(digit_value(byte, 36), None);
    }
}

#[test]
fn sign_and_magnitude() {
    assert_eq!(parse_sign_magnitude("0", 10, false), Some((false, 0)));
    assert_eq!(parse_sign_magnitude("+17", 10, false), Some((false, 17)));
    assert_eq!(parse_sign_magnitude("-17", 10, true), Some((true, 17)));
    assert_eq!(parse_sign_magnitude("-17", 10, false), None);
    assert_eq!(parse_sign_magnitude("-0", 10, true), Some((true, 0)));
    assert_eq!(parse_sign_magnitude("", 10, true), None);
    assert_eq!(parse_sign_magnitude("+", 10, true), None);
    assert_eq!(parse_sign_magnitude("-", 10, true), None);
    assert_eq!(parse_sign_magnitude("ff", 16, false), Some((false, 255)));
    assert_eq!(
        parse_sign_magnitude("340282366920938463463374607431768211455", 10, false),
        Some((false, u128::MAX))
    );
    assert_eq!(parse_sign_magnitude("340282366920938463463374607431768211456", 10, false), None);
    assert_eq!(parse_sign_magnitude("3402823669209384634633746074317682114560", 10, true), None);
    assert_eq!(parse_sign_magnitude("12\u{e9}", 10, true), None);
    assert_eq!(invalid_number("x", 7), "\"x\" is not a valid base-7 number for this type");
}

use alchemist::binary64::Binary64;
use alchemist::number::{decimal, float_literal, signed_decimal, IntegerError, Real, Token};
use alchemist::order::sorted_positions;
use alchemist::text::{
    chars_of, join, lines, pad_left, pad_right, same, starts_with, strip_prefix, trim, until_mark,
    white, words,
};

fn bits(value: f64) -> Binary64 {
    Binary64 { bits: value.to_bits() }
}

#[test]
fn white_space_is_that_of_the_standard_library() {
    for code in 0..0x11000u32 {
        if let Some(c) = char::from_u32(code) {
            assert_eq!(white(c), c.is_whitespace(), "{:?}", c);
        }
    }
}

#[test]
fn trimming_words_and_lines_agree_with_the_standard_library() {
    for s in [
        "",
        " ",
        "a",
        "  a b\tc  ",
        "\u{a0}x\u{3000}y\u{2003}",
        "one\ntwo\r\nthree",
        "one\n\n\r\n\rlast\r",
        "\n",
        "no end\n",
        "ITEM: ATOMS id type x y z",
    ] {
        assert_eq!(trim(s), s.trim());
        assert_eq!(words(s), s.split_whitespace().collect::<Vec<_>>());
        assert_eq!(lines(s), s.lines().collect::<Vec<_>>());
        assert_eq!(chars_of(s), s.chars().collect::<Vec<_>>());
    }
}

#[test]
fn prefixes_marks_padding_and_joining() {
    assert!(starts_with("ITEM: ATOMS id", "ITEM: ATOMS"));
    assert!(!starts_with("ITEM", "ITEM: ATOMS"));
    assert!(!starts_with("ITEM: BOXES", "ITEM: ATOMS"));
    assert_eq!(strip_prefix("# alchemist_species S", "# alchemist_species").as_deref(), Some(" S"));
    assert_eq!(strip_prefix("pair_coeff", "# "), None);
    assert_eq!(until_mark("pair_coeff * * # note", '#'), "pair_coeff * * ");
    assert_eq!(until_mark("nothing", '#'), "nothing");
    assert_eq!(pad_left("7", 3, '0'), "007");
    assert_eq!(pad_left("1234", 3, '0'), "1234");
    assert_eq!(pad_right("S", 2, ' '), "S ");
    assert_eq!(join(&vec!["S".to_string(), "Cu".to_string()], ", "), "S, Cu");
    assert_eq!(join(&Vec::new(), ", "), "");
    assert!(same("a", "a") && !same("a", "b"));
}

#[test]
fn numbers_are_written_in_decimal_digits() {
    for n in [0u64, 7, 10, 99, 100, 18_446_744_073_709_551_615] {
        assert_eq!(decimal(n), n.to_string());
    }
    for n in [0i64, -1, 1, i64::MIN, i64::MAX, -900] {
        assert_eq!(signed_decimal(n), n.to_string());
    }
}

#[test]
fn integers_are_read_as_by_the_standard_library() {
    for s in [
        "", "+", "-", "0", "-0", "+7", "-7", "007", "12a", "a", " 1", "1 ", "++1", "-+1",
        "18446744073709551615", "18446744073709551616", "9223372036854775807",
        "9223372036854775808", "-9223372036854775808", "-9223372036854775809",
        "99999999999999999999999", "9999999999999999999999x", "\u{0661}",
    ] {
        assert_eq!(usize::from_token(s), s.parse::<usize>().map_err(|e| e.to_string()), "{:?}", s);
        assert_eq!(i64::from_token(s), s.parse::<i64>().map_err(|e| e.to_string()), "{:?}", s);
    }
    assert_eq!(IntegerError::Empty.message(), "cannot parse integer from empty string");
    assert_eq!(IntegerError::InvalidDigit.message(), "invalid digit found in string");
    assert_eq!(IntegerError::TooLarge.message(), "number too large to fit in target type");
    assert_eq!(IntegerError::TooSmall.message(), "number too small to fit in target type");
}

#[test]
fn float_literals_are_those_of_the_standard_library() {
    for s in [
        "", "0", "1.", ".5", ".", "1.5", "+1.5", "-1.5", "--1", "1e5", "1E5", "1e+5", "1e-5", "1e",
        "e5", "1.e3", ".5e3", ".e3", "1e5.0", "1.2.3", "inf", "INF", "-inf", "+Infinity",
        "infinity", "infinit", "nan", "NaN", "-nan", "nane", "0x10", "1_000", " 1", "1 ", "1f64",
        "1.0000000000000000e1", "1e999", "5.0", "+", "-", "i", "1e+",
    ] {
        assert_eq!(float_literal(s), s.parse::<f64>().is_ok(), "{:?}", s);
        match (Real::from_token(s), s.parse::<f64>()) {
            (Ok(real), Ok(_)) => assert_eq!(real.literal, s),
            (Err(e), Err(expected)) => assert_eq!(e, expected.to_string()),
            _ => panic!("{:?}", s),
        }
    }
}

#[test]
fn bit_patterns_order_as_numbers_do() {
    let values = [
        0.0, -0.0, 1.0, -1.0, 0.02, 0.4, f64::MIN_POSITIVE, 5e-324, -5e-324, f64::MAX, f64::MIN,
        f64::INFINITY, f64::NEG_INFINITY, f64::NAN, -f64::NAN, 1.5, 2.5,
    ];
    for a in values {
        assert_eq!(bits(a).nan(), a.is_nan());
        for b in values {
            assert_eq!(bits(a).at_most(bits(b)), a <= b, "{} {}", a, b);
            if !a.is_nan() && !b.is_nan() {
                assert_eq!(bits(a).rank() <= bits(b).rank(), a <= b, "{} {}", a, b);
            }
        }
    }
    assert_eq!(bits(0.0).rank(), bits(-0.0).rank());
}

#[test]
fn sorting_is_stable() {
    let keys = vec![3u64, 1, 3, 0, 1, 3];
    assert_eq!(sorted_positions(&keys), vec![3, 1, 4, 0, 2, 5]);
    assert_eq!(sorted_positions(&Vec::new()), Vec::<usize>::new());
    let long: Vec<u64> = (0..500u64).map(|i| (i * 7919) % 13).collect();
    let mut expected: Vec<usize> = (0..500).collect();
    expected.sort_by_key(|&i| long[i]);
    assert_eq!(sorted_positions(&long), expected);
}

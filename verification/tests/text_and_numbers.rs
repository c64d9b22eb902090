use edi_import::error::EdiErrorKind;
use edi_import::number::{
    decode_decimal, decode_optional_decimal, parse_i32, parse_i64, str_as_decimal, IntFault,
    PackedDecimal,
};
use edi_import::order::{rank, sorted_distinct, Rank};
use edi_import::text::{char_is_space, number_text, same_text, to_chars, trim_text};

fn as_f64(d: &PackedDecimal) -> f64 {
    let whole: f64 = d.whole.parse().unwrap();
    let fraction: f64 = format!("0.{}", d.fraction).parse().unwrap();
    whole + fraction
}

#[test]
fn white_space_is_what_std_trims() {
    let mut code: u32 = 0;
    while code <= 0x10FFFF {
        if let Some(c) = char::from_u32(code) {
            assert_eq!(char_is_space(c), c.is_whitespace(), "code point {:x}", code);
        }
        code += 1;
    }
}

#[test]
fn trim_agrees_with_std() {
    let samples = [
        "",
        " ",
        "   ",
        "abc",
        "  abc",
        "abc  ",
        "  a b c  ",
        "\t\n x \r\n",
        "\u{a0}hinta\u{3000}",
        "ä ö",
        " ä",
        "R 1",
    ];
    for s in samples {
        assert_eq!(trim_text(s), s.trim().to_string(), "sample {:?}", s);
    }
}

#[test]
fn chars_and_equality() {
    assert_eq!(to_chars("aä1"), vec!['a', 'ä', '1']);
    assert!(to_chars("").is_empty());
    assert!(same_text("abc", "abc"));
    assert!(!same_text("abc", "abd"));
    assert!(!same_text("abc", "ab"));
    assert!(same_text("", ""));
}

#[test]
fn numbers_are_written_in_decimal() {
    for n in [0u128, 1, 9, 10, 11, 99, 100, 232, 1000, 65535, 4294967296, u64::MAX as u128] {
        assert_eq!(number_text(n), format!("{}", n));
    }
    assert_eq!(number_text(u128::MAX), format!("{}", u128::MAX));
}

#[test]
fn packed_decimal_round_trip() {
    let d = decode_decimal("000015099", 7).unwrap();
    assert_eq!(d.whole, "0000150");
    assert_eq!(d.fraction, "99");
    assert_eq!(as_f64(&d), 150.99);
    assert_eq!(d.to_scaled(), Some(15099));
    assert!(!d.is_zero());
    let direct = str_as_decimal("0000150", "99", "000015099").unwrap();
    assert_eq!(direct, d);
}

#[test]
fn all_zero_field_is_zero() {
    let d = decode_decimal("000000000", 7).unwrap();
    assert!(d.is_zero());
    assert_eq!(as_f64(&d), 0.0);
    assert_eq!(d.to_scaled(), Some(0));
}

#[test]
fn optional_zero_collapses_to_none() {
    assert_eq!(decode_optional_decimal("000000000", 7).unwrap(), None);
    assert_eq!(decode_optional_decimal("00000", 3).unwrap(), None);
    let kept = decode_optional_decimal("000000001", 7).unwrap().unwrap();
    assert_eq!(as_f64(&kept), 0.01);
}

#[test]
fn optional_decimal_too_short_is_absent() {
    assert_eq!(decode_optional_decimal("", 7).unwrap(), None);
    assert_eq!(decode_optional_decimal("1234567", 7).unwrap(), None);
    assert_eq!(decode_optional_decimal("abc", 4).unwrap(), None);
}

#[test]
fn required_decimal_too_short_fails() {
    let e = decode_decimal("1234567", 7).unwrap_err();
    assert_eq!(e.kind, EdiErrorKind::MalformedNumber);
    assert_eq!(e.message, "Unable to split decimals from '1234567' string");
    let e = decode_decimal("", 5).unwrap_err();
    assert_eq!(e.message, "Unable to split decimals from '' string");
}

#[test]
fn decimal_with_other_than_digits_fails() {
    let e = decode_decimal("00001x099", 7).unwrap_err();
    assert_eq!(e.kind, EdiErrorKind::MalformedNumber);
    assert_eq!(
        e.message,
        "Failed to read integers (00001x0) from string '00001x099' as number: invalid digit found in string"
    );
    let e = decode_decimal("00001509-", 7).unwrap_err();
    assert_eq!(
        e.message,
        "Failed to read decimals (9-) from string '00001509-' as number: invalid digit found in string"
    );
    let e = decode_optional_decimal("-00015099", 7).unwrap_err();
    assert_eq!(e.kind, EdiErrorKind::MalformedNumber);
    let e = str_as_decimal("", "99", "99").unwrap_err();
    assert_eq!(
        e.message,
        "Failed to read integers () from string '99' as number: cannot parse integer from empty string"
    );
    let d = str_as_decimal("12", "", "12").unwrap();
    assert_eq!(as_f64(&d), 12.0);
}

#[test]
fn long_decimals_do_not_overflow() {
    let d = str_as_decimal("99999999999999999999", "99999", "x").unwrap();
    assert_eq!(d.to_scaled(), None);
    assert!(!d.is_zero());
    let z = str_as_decimal("00000000000000000000000000", "0000", "x").unwrap();
    assert!(z.is_zero());
    assert_eq!(z.to_scaled(), Some(0));
    let m = str_as_decimal("18446744073709551", "615", "x").unwrap();
    assert_eq!(m.to_scaled(), Some(u64::MAX));
    let over = str_as_decimal("18446744073709551", "616", "x").unwrap();
    assert_eq!(over.to_scaled(), None);
}

fn fault_of(e: &std::num::IntErrorKind) -> IntFault {
    match e {
        std::num::IntErrorKind::Empty => IntFault::Empty,
        std::num::IntErrorKind::InvalidDigit => IntFault::InvalidDigit,
        std::num::IntErrorKind::PosOverflow => IntFault::PosOverflow,
        std::num::IntErrorKind::NegOverflow => IntFault::NegOverflow,
        _ => panic!("unexpected kind"),
    }
}

#[test]
fn integers_parse_as_std_parses_them() {
    let samples = [
        "",
        "0",
        "7",
        "+7",
        "-7",
        "-0",
        "+",
        "-",
        "007",
        "12a",
        "a12",
        " 12",
        "12 ",
        "1.5",
        "--1",
        "+-1",
        "2147483647",
        "2147483648",
        "-2147483648",
        "-2147483649",
        "9223372036854775807",
        "9223372036854775808",
        "-9223372036854775808",
        "-9223372036854775809",
        "00000000000000000000000000000042",
        "99999999999999999999999999999999",
        "-99999999999999999999999999999999",
        "٣",
    ];
    for s in samples {
        let want64 = s.parse::<i64>().map_err(|e| fault_of(e.kind()));
        assert_eq!(parse_i64(s), want64, "i64 of {:?}", s);
        let want32 = s.parse::<i32>().map_err(|e| fault_of(e.kind()));
        assert_eq!(parse_i32(s), want32, "i32 of {:?}", s);
    }
}

#[test]
fn texts_are_ranked_as_strings_compare() {
    let samples = ["", "a", "ab", "b", "B", "ä", "a ", "10", "9", "Line: 10", "Line: 9"];
    for a in samples {
        for b in samples {
            let want = match a.cmp(b) {
                std::cmp::Ordering::Less => Rank::Before,
                std::cmp::Ordering::Equal => Rank::Same,
                std::cmp::Ordering::Greater => Rank::After,
            };
            assert_eq!(rank(a, b), want, "{:?} against {:?}", a, b);
        }
    }
}

#[test]
fn sorted_distinct_is_sort_and_dedup() {
    let items: Vec<String> = ["pear", "apple", "fig", "apple", "", "pear", "Apple", "fig", "ä"]
        .iter()
        .map(|s| s.to_string())
        .collect();
    let mut want = items.clone();
    want.sort();
    want.dedup();
    assert_eq!(sorted_distinct(&items), want);
    assert_eq!(sorted_distinct(&Vec::new()), Vec::<String>::new());
    let one = vec!["x".to_string()];
    assert_eq!(sorted_distinct(&one), one);
    let mut many: Vec<String> = Vec::new();
    let mut n: u32 = 0;
    while n < 500 {
        many.push(format!("Line: {}, length 98", (n * 7919) % 311));
        n += 1;
    }
    let mut want = many.clone();
    want.sort();
    want.dedup();
    assert_eq!(sorted_distinct(&many), want);
}

use edi_import::edi::discounts::{is_discount_file, Discount, EXPL_SEQ_DISC};
use edi_import::edi::prices::{is_price_file, Price, EXPL_SEQ_PRICE};
use edi_import::edi::products::{is_product_file, Product, EXPL_SEQ_PRODUCT};
use edi_import::edi::{classify, EdiKind};
use edi_import::error::EdiErrorKind;
use edi_import::number::PackedDecimal;
use edi_import::utils::{Category, Lang, Operation};

fn as_f64(d: &PackedDecimal) -> f64 {
    let whole: f64 = d.whole.parse().unwrap();
    let fraction: f64 = format!("0.{}", d.fraction).parse().unwrap();
    whole + fraction
}

fn build(widths: &[usize], values: &[&str]) -> String {
    assert_eq!(widths.len(), values.len());
    let mut line = String::new();
    for (w, v) in widths.iter().zip(values.iter()) {
        assert!(v.chars().count() <= *w, "value {:?} wider than {}", v, w);
        line.push_str(v);
        for _ in v.chars().count()..*w {
            line.push(' ');
        }
    }
    line
}

fn product_values() -> Vec<&'static str> {
    vec![
        "R",
        "L",
        "123456789",
        "1",
        "fin",
        "20240115",
        "Kupariputki 15 mm",
        "Kova, 5 m",
        "putki kupari",
        "KP15",
        "AB12",
        "m",
        "0001500",
        "0000000",
        "000000010",
        "000010000",
        "00500",
        "000000000",
        "00000",
        "",
        "",
        "24",
        "02",
        "E",
        "6412345678901",
        "kpl",
        "000010000",
    ]
}

fn product_line_with(index: usize, value: &'static str) -> String {
    let mut values = product_values();
    values[index] = value;
    build(&EXPL_SEQ_PRODUCT, &values)
}

fn price_values() -> Vec<&'static str> {
    vec![
        "R",
        "S",
        "987654321",
        "01",
        "000015099",
        "20231231",
        "EL01",
        "kpl",
        "0001",
        "000002500",
        "01000",
        "000000000",
        "00000",
        "",
        "",
        "m",
        "000010000",
        "",
        "03",
    ]
}

fn price_line_with(index: usize, value: &'static str) -> String {
    let mut values = price_values();
    values[index] = value;
    build(&EXPL_SEQ_PRICE, &values)
}

fn discount_values() -> Vec<&'static str> {
    vec!["R", "AB12", "BUYER-1", "Putket ja osat", "01", "000002550", "000000000"]
}

fn discount_line_with(index: usize, value: &'static str) -> String {
    let mut values = discount_values();
    values[index] = value;
    build(&EXPL_SEQ_DISC, &values)
}

#[test]
fn product_line_decodes() {
    let line = build(&EXPL_SEQ_PRODUCT, &product_values());
    assert_eq!(line.chars().count(), 232);
    let (p, warnings) = Product::from_line(line, None).unwrap();
    assert!(warnings.is_empty());
    assert_eq!(p.category, Category::WaterAndHeating);
    assert_eq!(p.identifier, "123456789");
    assert_eq!(p.operation, Operation::Added);
    assert_eq!(p.lang, Lang::Fin);
    assert_eq!(p.date.stamp(), "2024-01-15 00:00:00.000");
    assert_eq!(p.name, "Kupariputki 15 mm");
    assert_eq!(p.description, "Kova, 5 m");
    assert_eq!(p.search_tags.as_deref(), Some("putki kupari"));
    assert_eq!(p.search_code.as_deref(), Some("KP15"));
    assert_eq!(p.discount_group.as_deref(), Some("AB12"));
    assert_eq!(p.unit, "m");
    assert_eq!(as_f64(p.unit_weight.as_ref().unwrap()), 1.5);
    assert_eq!(p.unit_volume, None);
    assert_eq!(p.typical_packaging, Some(10));
    assert_eq!(as_f64(p.packaging_1.as_ref().unwrap()), 100.0);
    assert_eq!(as_f64(p.packaging_1_discount.as_ref().unwrap()), 5.0);
    assert_eq!(p.packaging_2, None);
    assert_eq!(p.packaging_2_discount, None);
    assert_eq!(p.packaging_3, None);
    assert_eq!(p.packaging_3_discount, None);
    assert_eq!(p.tax_class.as_deref(), Some("24"));
    assert_eq!(p.delivery_in_weeks, Some(2));
    assert_eq!(p.stock_item, Some(false));
    assert_eq!(p.ean_code.as_deref(), Some("6412345678901"));
    assert_eq!(p.usage_unit.as_deref(), Some("kpl"));
    assert_eq!(as_f64(&p.usables_in_unit), 1.0);
    assert_eq!(p.usables_in_unit.whole, "00001");
    assert_eq!(p.usables_in_unit.fraction, "0000");
}

#[test]
fn product_optional_fields_may_be_blank() {
    let mut values = product_values();
    for i in [8, 9, 10, 12, 13, 14, 15, 16, 17, 18, 19, 20, 21, 22, 23, 24, 25] {
        values[i] = "";
    }
    let (p, warnings) = Product::from_line(build(&EXPL_SEQ_PRODUCT, &values), None).unwrap();
    assert!(warnings.is_empty());
    assert_eq!(p.search_tags, None);
    assert_eq!(p.search_code, None);
    assert_eq!(p.discount_group, None);
    assert_eq!(p.unit_weight, None);
    assert_eq!(p.unit_volume, None);
    assert_eq!(p.typical_packaging, None);
    assert_eq!(p.packaging_1, None);
    assert_eq!(p.packaging_1_discount, None);
    assert_eq!(p.tax_class, None);
    assert_eq!(p.delivery_in_weeks, None);
    assert_eq!(p.stock_item, None);
    assert_eq!(p.ean_code, None);
    assert_eq!(p.usage_unit, None);
}

#[test]
fn product_without_description_warns() {
    let (p, warnings) = Product::from_line(product_line_with(7, ""), None).unwrap();
    assert_eq!(p.description, "");
    assert_eq!(warnings, vec!["[123456789]: Product description is an empty string"]);
}

#[test]
fn product_zero_packaging_price_is_absent() {
    let (p, _) = Product::from_line(product_line_with(15, "000000000"), None).unwrap();
    assert_eq!(p.packaging_1, None);
    let (p, _) = Product::from_line(product_line_with(15, "000000001"), None).unwrap();
    assert_eq!(as_f64(p.packaging_1.as_ref().unwrap()), 0.01);
    let (p, _) = Product::from_line(product_line_with(22, "00"), None).unwrap();
    assert_eq!(p.delivery_in_weeks, None);
    let (p, _) = Product::from_line(product_line_with(22, "-1"), None).unwrap();
    assert_eq!(p.delivery_in_weeks, None);
    let (p, _) = Product::from_line(product_line_with(14, "0"), None).unwrap();
    assert_eq!(p.typical_packaging, Some(0));
    let (p, _) = Product::from_line(product_line_with(23, "X"), None).unwrap();
    assert_eq!(p.stock_item, None);
}

#[test]
fn product_language_filter() {
    let fin = Lang::Fin;
    let swe = Lang::Swe;
    let line = build(&EXPL_SEQ_PRODUCT, &product_values());
    assert!(Product::from_line(line.clone(), Some(&fin)).is_ok());
    let e = Product::from_line(line, Some(&swe)).unwrap_err();
    assert_eq!(e.kind, EdiErrorKind::LanguageMismatch);
    assert_eq!(e.message, "Language filter set to 'swe' and product lang is 'fin'");
    let upper = product_line_with(4, "SWE");
    let (p, _) = Product::from_line(upper, Some(&swe)).unwrap();
    assert_eq!(p.lang, Lang::Swe);
}

#[test]
fn product_line_errors() {
    let cases: Vec<(usize, &'static str, EdiErrorKind, &str)> = vec![
        (0, "", EdiErrorKind::InvalidRowMarker, "Trying to extract row id from pointer with invalid length."),
        (0, "O", EdiErrorKind::InvalidRowMarker, "Row identifier is fixed 'R', found 'O'"),
        (1, "Z", EdiErrorKind::InvalidCategory, "Invalid EDI category 'Z' provided"),
        (2, "", EdiErrorKind::EmptyRequiredField, "Product identifier is an empty string"),
        (
            3,
            "9",
            EdiErrorKind::InvalidOperation,
            "Product with ID: 123456789 fails for bad operation: Operation has to be number between 1 and 3. Found '9'",
        ),
        (
            4,
            "ger",
            EdiErrorKind::InvalidLanguage,
            "Product has invalid language ger: Invalid language name ger provided. Expected one of: [fin, swe, eng, nor]",
        ),
        (
            5,
            "2024011",
            EdiErrorKind::MalformedDate,
            "Date value should be in format 'yyyymmdd'. String 8 chars long that is.",
        ),
        (6, "", EdiErrorKind::EmptyRequiredField, "Product name is an empty string"),
        (11, "", EdiErrorKind::EmptyRequiredField, "Product unit is an empty string"),
        (
            12,
            "00015x0",
            EdiErrorKind::MalformedNumber,
            "Failed to read decimals (5x0) from string '00015x0' as number: invalid digit found in string",
        ),
        (
            14,
            "12x",
            EdiErrorKind::MalformedNumber,
            "Failed to read '12x' as number: invalid digit found in string",
        ),
        (
            15,
            "00001000x",
            EdiErrorKind::MalformedNumber,
            "Failed to read decimals (0x) from string '00001000x' as number: invalid digit found in string",
        ),
        (
            22,
            "2w",
            EdiErrorKind::MalformedNumber,
            "Failed to read '2w' as number: invalid digit found in string",
        ),
        (26, "10000", EdiErrorKind::MalformedNumber, "Unable to split decimals from '10000' string"),
        (26, "", EdiErrorKind::MalformedNumber, "Unable to split decimals from '' string"),
    ];
    for (index, value, kind, message) in cases {
        let e = Product::from_line(product_line_with(index, value), None).unwrap_err();
        assert_eq!(e.kind, kind, "field {}", index);
        assert_eq!(e.message, message, "field {}", index);
    }
}

#[test]
fn product_first_refused_field_decides() {
    let mut values = product_values();
    values[1] = "Z";
    values[6] = "";
    let e = Product::from_line(build(&EXPL_SEQ_PRODUCT, &values), None).unwrap_err();
    assert_eq!(e.kind, EdiErrorKind::InvalidCategory);
    let full = product_line_with(6, "");
    let cut: String = full.chars().take(60).collect();
    let e = Product::from_line(cut, None).unwrap_err();
    assert_eq!(e.kind, EdiErrorKind::EmptyRequiredField);
    let full = build(&EXPL_SEQ_PRODUCT, &product_values());
    let cut: String = full.chars().take(231).collect();
    let e = Product::from_line(cut.clone(), None).unwrap_err();
    assert_eq!(e.kind, EdiErrorKind::TruncatedRecord);
    assert_eq!(e.message, format!("Failed to extract [223-9] from line '{}'", cut));
    let cut: String = full.chars().take(30).collect();
    let e = Product::from_line(cut.clone(), None).unwrap_err();
    assert_eq!(e.message, format!("Failed to extract [23-35] from line '{}'", cut));
    let e = Product::from_line(String::new(), None).unwrap_err();
    assert_eq!(e.message, "Failed to extract [0-1] from line ''");
}

#[test]
fn new_records_are_blank() {
    let p = Product::new();
    assert_eq!(p.category, Category::Unset);
    assert_eq!(p.operation, Operation::Empty);
    assert_eq!(p.lang, Lang::Fin);
    assert_eq!(p.identifier, "");
    assert_eq!(p.stock_item, None);
    assert!(p.usables_in_unit.is_zero());
    let q = Price::new();
    assert_eq!(q.category, Category::Unset);
    assert_eq!(q.units_incl, 0);
    assert!(q.price.is_zero());
    assert_eq!(q.delivery_in_weeks, None);
    let d = Discount::new();
    assert_eq!(d.id, "");
    assert!(d.pc1.is_zero());
    assert!(d.pc2.is_zero());
}

#[test]
fn price_line_decodes() {
    let line = build(&EXPL_SEQ_PRICE, &price_values());
    assert_eq!(line.chars().count(), 100);
    let (p, warnings) = Price::from_line(line).unwrap();
    assert!(warnings.is_empty());
    assert_eq!(p.category, Category::Electricity);
    assert_eq!(p.identifier, "987654321");
    assert_eq!(p.price_group, "01");
    assert_eq!(as_f64(&p.price), 150.99);
    assert_eq!(p.date.stamp(), "2023-12-31 00:00:00.000");
    assert_eq!(p.discount_group, "EL01");
    assert_eq!(p.unit, "kpl");
    assert_eq!(p.units_incl, 1);
    assert_eq!(as_f64(p.packaging_1.as_ref().unwrap()), 25.0);
    assert_eq!(as_f64(p.packaging_1_discount.as_ref().unwrap()), 10.0);
    assert_eq!(p.packaging_2, None);
    assert_eq!(p.packaging_2_discount, None);
    assert_eq!(p.packaging_3, None);
    assert_eq!(p.packaging_3_discount, None);
    assert_eq!(p.usage_unit.as_deref(), Some("m"));
    assert_eq!(as_f64(&p.usables_in_unit), 1.0);
    assert_eq!(p.stock_item, None);
    assert_eq!(p.delivery_in_weeks, Some(3));
}

#[test]
fn price_line_without_last_field_warns() {
    let full = build(&EXPL_SEQ_PRICE, &price_values());
    for keep in [98usize, 99] {
        let cut: String = full.chars().take(keep).collect();
        let (p, warnings) = Price::from_line(cut).unwrap();
        assert_eq!(p.delivery_in_weeks, None);
        assert_eq!(
            warnings,
            vec!["Optional last value in price catalog ignored. Should be '00' for empty."]
        );
    }
    let cut: String = full.chars().take(97).collect();
    let e = Price::from_line(cut.clone()).unwrap_err();
    assert_eq!(e.kind, EdiErrorKind::TruncatedRecord);
    assert_eq!(e.message, format!("Failed to extract [97-1] from line '{}'", cut));
}

#[test]
fn price_delivery_and_units() {
    let (p, _) = Price::from_line(price_line_with(18, "00")).unwrap();
    assert_eq!(p.delivery_in_weeks, None);
    let (p, _) = Price::from_line(price_line_with(18, "")).unwrap();
    assert_eq!(p.delivery_in_weeks, None);
    let (p, _) = Price::from_line(price_line_with(18, "0")).unwrap();
    assert_eq!(p.delivery_in_weeks, None);
    let (p, _) = Price::from_line(price_line_with(18, "12")).unwrap();
    assert_eq!(p.delivery_in_weeks, Some(12));
    let e = Price::from_line(price_line_with(18, "1x")).unwrap_err();
    assert_eq!(e.message, "Failed to read '1x' as number: invalid digit found in string");
    let (p, _) = Price::from_line(price_line_with(8, "0100")).unwrap();
    assert_eq!(p.units_incl, 100);
    let (p, _) = Price::from_line(price_line_with(8, "0")).unwrap();
    assert_eq!(p.units_incl, 0);
    let (p, _) = Price::from_line(price_line_with(8, "-5")).unwrap();
    assert_eq!(p.units_incl, 0);
    let e = Price::from_line(price_line_with(8, "")).unwrap_err();
    assert_eq!(e.kind, EdiErrorKind::MalformedNumber);
    assert_eq!(e.message, "Failed to read '' as number: cannot parse integer from empty string");
    let (p, _) = Price::from_line(price_line_with(17, "E")).unwrap();
    assert_eq!(p.stock_item, Some(false));
    let (p, _) = Price::from_line(price_line_with(9, "000000000")).unwrap();
    assert_eq!(p.packaging_1, None);
}

#[test]
fn price_line_errors() {
    let cases: Vec<(usize, &'static str, EdiErrorKind, &str)> = vec![
        (0, "X", EdiErrorKind::InvalidRowMarker, "Row identifier is fixed 'R', found 'X'"),
        (1, "", EdiErrorKind::InvalidCategory, "Invalid EDI category '' provided"),
        (
            2,
            "",
            EdiErrorKind::EmptyRequiredField,
            "Product identifier in price is an empty string.",
        ),
        (3, "", EdiErrorKind::EmptyRequiredField, "Price group is an empty string."),
        (4, "", EdiErrorKind::MalformedNumber, "Unable to split decimals from '' string"),
        (
            4,
            "0000150,9",
            EdiErrorKind::MalformedNumber,
            "Failed to read decimals (,9) from string '0000150,9' as number: invalid digit found in string",
        ),
        (
            5,
            "",
            EdiErrorKind::MalformedDate,
            "Date value should be in format 'yyyymmdd'. String 8 chars long that is.",
        ),
        (
            6,
            "",
            EdiErrorKind::EmptyRequiredField,
            "Product discount group in price is an empty string.",
        ),
        (7, "", EdiErrorKind::EmptyRequiredField, "Price unit is an empty string."),
        (16, "1", EdiErrorKind::MalformedNumber, "Unable to split decimals from '1' string"),
    ];
    for (index, value, kind, message) in cases {
        let e = Price::from_line(price_line_with(index, value)).unwrap_err();
        assert_eq!(e.kind, kind, "field {}", index);
        assert_eq!(e.message, message, "field {}", index);
    }
}

#[test]
fn discount_line_decodes() {
    let line = build(&EXPL_SEQ_DISC, &discount_values());
    assert_eq!(line.chars().count(), 92);
    let d = Discount::from_line(line).unwrap();
    assert_eq!(d.discount_group, "AB12");
    assert_eq!(d.id, "BUYER-1");
    assert_eq!(d.name, "Putket ja osat");
    assert_eq!(d.price_group, "01");
    assert_eq!(as_f64(&d.pc1), 25.5);
    assert_eq!(as_f64(&d.pc2), 0.0);
    let blank = Discount::from_line(build(
        &EXPL_SEQ_DISC,
        &["R", "", "", "", "", "000000100", "000000000"],
    ))
    .unwrap();
    assert_eq!(blank.discount_group, "");
    assert_eq!(as_f64(&blank.pc1), 1.0);
}

#[test]
fn discount_line_errors() {
    let e = Discount::from_line(discount_line_with(0, "O")).unwrap_err();
    assert_eq!(e.kind, EdiErrorKind::InvalidRowMarker);
    let e = Discount::from_line(discount_line_with(5, "")).unwrap_err();
    assert_eq!(e.kind, EdiErrorKind::MalformedNumber);
    assert_eq!(e.message, "Unable to split decimals from '' string");
    let e = Discount::from_line(discount_line_with(6, "00000x000")).unwrap_err();
    assert_eq!(
        e.message,
        "Failed to read integers (00000x0) from string '00000x000' as number: invalid digit found in string"
    );
    let full = build(&EXPL_SEQ_DISC, &discount_values());
    let cut: String = full.chars().take(91).collect();
    let e = Discount::from_line(cut.clone()).unwrap_err();
    assert_eq!(e.kind, EdiErrorKind::TruncatedRecord);
    assert_eq!(e.message, format!("Failed to extract [83-9] from line '{}'", cut));
}

#[test]
fn files_are_classified_by_first_entry() {
    let head = vec!["OBY1".to_string(), "OSE1".to_string()];
    let with = |line: String| {
        let mut lines = head.clone();
        lines.push(line);
        lines
    };
    let product = with(build(&EXPL_SEQ_PRODUCT, &product_values()));
    let price = with(build(&EXPL_SEQ_PRICE, &price_values()));
    let discount = with(build(&EXPL_SEQ_DISC, &discount_values()));
    let other = with("Rubbish".to_string());
    assert_eq!(classify(&product), EdiKind::Product);
    assert_eq!(classify(&price), EdiKind::Price);
    assert_eq!(classify(&discount), EdiKind::Discount);
    assert_eq!(classify(&other), EdiKind::Unrecognized);
    assert_eq!(is_product_file(&product).unwrap(), true);
    assert_eq!(is_product_file(&price).unwrap(), false);
    assert_eq!(is_price_file(&price).unwrap(), true);
    assert_eq!(is_price_file(&discount).unwrap(), false);
    assert_eq!(is_discount_file(&discount).unwrap(), true);
    assert_eq!(is_discount_file(&other).unwrap(), false);
    let blank_entry = with(String::new());
    assert_eq!(classify(&blank_entry), EdiKind::Unrecognized);
    assert_eq!(classify(&vec!["only one line".to_string()]), EdiKind::Unrecognized);
    for lines in [Vec::new(), head.clone()] {
        assert_eq!(classify(&lines), EdiKind::Unrecognized);
        assert_eq!(is_product_file(&lines).unwrap_err().kind, EdiErrorKind::MissingRecord);
        assert_eq!(is_price_file(&lines).unwrap_err().kind, EdiErrorKind::MissingRecord);
        assert_eq!(is_discount_file(&lines).unwrap_err().kind, EdiErrorKind::MissingRecord);
    }
}

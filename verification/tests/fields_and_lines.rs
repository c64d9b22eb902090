use edi_import::edi::header::{
    is_seller_home, schema_self_check, EdiHeader, EdiOwnership, EdiParty, EXPL_SEQ_TITLE, SEQ_TITLE_REQLEN,
};
use edi_import::edi::{
    check_widths, edi_line_iter, split_fields, EdiDate, EdiLine,
};
use edi_import::edi::discounts::{EXPL_SEQ_DISC, SEQ_DISC_REQLEN};
use edi_import::edi::prices::{EXPL_SEQ_PRICE, SEQ_PRICE_REQLEN};
use edi_import::edi::products::{EXPL_SEQ_PRODUCT, SEQ_PROD_REQLEN};
use edi_import::error::EdiErrorKind;
use edi_import::utils::{Category, Lang, Operation};

fn header_line(owner: &str, id: &str, code: &str) -> String {
    format!("O{:<2}{:<17}{:<3}", owner, id, code)
}

#[test]
fn widths_add_up_to_documented_lengths() {
    assert_eq!(EXPL_SEQ_TITLE.iter().sum::<usize>(), 23);
    assert_eq!(SEQ_TITLE_REQLEN, 23);
    assert_eq!(EXPL_SEQ_PRODUCT.iter().sum::<usize>(), 232);
    assert_eq!(SEQ_PROD_REQLEN, 232);
    assert_eq!(EXPL_SEQ_PRICE.iter().sum::<usize>(), 100);
    assert_eq!(SEQ_PRICE_REQLEN, 100);
    assert_eq!(EXPL_SEQ_DISC.iter().sum::<usize>(), 92);
    assert_eq!(SEQ_DISC_REQLEN, 92);
    assert!(schema_self_check().is_ok());
}

#[test]
fn drifted_schema_fails_self_check() {
    assert!(check_widths(&[1, 2, 17, 3], 23).is_ok());
    let e = check_widths(&[1, 2, 17, 3], 24).unwrap_err();
    assert_eq!(e.kind, EdiErrorKind::SchemaSelfCheckFailed);
    let e = check_widths(&[1, 2, 18, 3], 23).unwrap_err();
    assert_eq!(e.kind, EdiErrorKind::SchemaSelfCheckFailed);
    let e = check_widths(&[usize::MAX, usize::MAX], 5).unwrap_err();
    assert_eq!(e.kind, EdiErrorKind::SchemaSelfCheckFailed);
    assert!(check_widths(&[], 0).is_ok());
}

#[test]
fn cursor_advances_over_header() {
    let line = header_line("SE", "0123456789-SELLER", "FI1");
    assert_eq!(line.chars().count(), 23);
    let mut pointer = 0;
    let mut values = Vec::new();
    for w in [1usize, 2, 17, 3] {
        let (value, next) = edi_line_iter(pointer, &line, &w).unwrap();
        assert_eq!(next, pointer + w);
        values.push(value);
        pointer = next;
    }
    assert_eq!(pointer, 23);
    assert_eq!(values, vec!["O", "SE", "0123456789-SELLER", "FI1"]);
}

#[test]
fn short_header_fails_on_last_field() {
    let full = header_line("SE", "0123456789-SELLER", "FI1");
    let line: String = full.chars().take(22).collect();
    let mut pointer = 0;
    for w in [1usize, 2, 17] {
        let (_, next) = edi_line_iter(pointer, &line, &w).unwrap();
        pointer = next;
    }
    assert_eq!(pointer, 20);
    let e = edi_line_iter(pointer, &line, &3).unwrap_err();
    assert_eq!(e.kind, EdiErrorKind::TruncatedRecord);
    assert_eq!(e.message, format!("Failed to extract [20-3] from line '{}'", line));
}

#[test]
fn fields_are_cut_by_characters_and_trimmed() {
    let line = "äö  x y  zz";
    assert_eq!(edi_line_iter(0, line, &2).unwrap(), ("äö".to_string(), 2));
    assert_eq!(edi_line_iter(2, line, &4).unwrap(), ("x".to_string(), 6));
    assert_eq!(edi_line_iter(4, line, &5).unwrap(), ("x y".to_string(), 9));
    assert_eq!(edi_line_iter(2, line, &2).unwrap(), ("".to_string(), 4));
    assert_eq!(edi_line_iter(11, line, &0).unwrap(), ("".to_string(), 11));
    assert!(edi_line_iter(11, line, &1).is_err());
    assert!(edi_line_iter(12, line, &0).is_err());
    assert!(edi_line_iter(usize::MAX, line, &usize::MAX).is_err());
}

#[test]
fn split_stops_before_first_missing_field() {
    let line = header_line("BY", "B1", "X");
    assert_eq!(split_fields(&line, &EXPL_SEQ_TITLE), vec!["O", "BY", "B1", "X"]);
    let short: String = line.chars().take(20).collect();
    assert_eq!(split_fields(&short, &EXPL_SEQ_TITLE), vec!["O", "BY", "B1"]);
    assert_eq!(split_fields("", &EXPL_SEQ_TITLE), Vec::<String>::new());
    assert_eq!(split_fields("O", &EXPL_SEQ_TITLE), vec!["O"]);
}

#[test]
fn categories_by_code() {
    assert_eq!(Category::from_edi_str("L").unwrap(), Category::WaterAndHeating);
    assert_eq!(Category::from_edi_str("I").unwrap(), Category::Ventilation);
    assert_eq!(Category::from_edi_str("S").unwrap(), Category::Electricity);
    assert_eq!(Category::from_edi_str("P").unwrap(), Category::Industrial);
    assert_eq!(Category::from_edi_str("K").unwrap(), Category::Refrigeration);
    for bad in ["", "l", "X", "LL", " L"] {
        let e = Category::from_edi_str(bad).unwrap_err();
        assert_eq!(e.kind, EdiErrorKind::InvalidCategory);
        assert_eq!(e.message, format!("Invalid EDI category '{}' provided", bad));
    }
    assert_eq!(Category::Unset.to_name(), "unset");
    assert_eq!(Category::WaterAndHeating.to_name(), "lv");
    assert_eq!(Category::Ventilation.to_name(), "iv");
    assert_eq!(Category::Electricity.to_name(), "sa");
    assert_eq!(Category::Industrial.to_name(), "te");
    assert_eq!(Category::Refrigeration.to_name(), "ky");
    assert_eq!(
        Category::mapper(),
        [
            ("lv", Category::WaterAndHeating),
            ("iv", Category::Ventilation),
            ("sa", Category::Electricity),
            ("te", Category::Industrial),
            ("ky", Category::Refrigeration),
        ]
    );
    assert_eq!(Category::default(), Category::Unset);
}

#[test]
fn languages_by_name() {
    for (name, lang, index) in
        [("fin", Lang::Fin, 1), ("swe", Lang::Swe, 2), ("eng", Lang::Eng, 3), ("nor", Lang::Nor, 4)]
    {
        assert_eq!(Lang::from_name(name).unwrap(), lang);
        assert_eq!(Lang::from_name(&name.to_uppercase()).unwrap(), lang);
        assert_eq!(lang.to_name(), name);
        assert_eq!(lang.to_index(), index);
    }
    assert_eq!(Lang::from_name("FiN").unwrap(), Lang::Fin);
    assert_eq!(Lang::from_name("sWE").unwrap(), Lang::Swe);
    for bad in ["", "fi", "finn", "fın", "f\u{130}n", "es", "fin "] {
        let e = Lang::from_name(bad).unwrap_err();
        assert_eq!(e.kind, EdiErrorKind::InvalidLanguage);
        assert_eq!(
            e.message,
            format!(
                "Invalid language name {} provided. Expected one of: [fin, swe, eng, nor]",
                bad
            )
        );
        assert!(!["fin", "swe", "eng", "nor"].contains(&bad.to_lowercase().as_str()));
    }
    assert_eq!(
        Lang::mapper(),
        [("fin", Lang::Fin), ("swe", Lang::Swe), ("eng", Lang::Eng), ("nor", Lang::Nor)]
    );
    assert_eq!(Lang::default(), Lang::Fin);
}

#[test]
fn operations_by_code() {
    assert_eq!(Operation::from_str("1").unwrap(), Operation::Added);
    assert_eq!(Operation::from_str("2").unwrap(), Operation::Modified);
    assert_eq!(Operation::from_str("3").unwrap(), Operation::Destroyed);
    for bad in ["", "0", "4", "a", "11"] {
        let e = Operation::from_str(bad).unwrap_err();
        assert_eq!(e.kind, EdiErrorKind::InvalidOperation);
        assert_eq!(
            e.message,
            format!("Operation has to be number between 1 and 3. Found '{}'", bad)
        );
    }
    assert_eq!(Operation::Added.to_name(), "add");
    assert_eq!(Operation::Modified.to_name(), "mod");
    assert_eq!(Operation::Destroyed.to_name(), "del");
    assert_eq!(Operation::Empty.label(), "-");
    assert_eq!(Operation::Added.label(), "add");
    assert_eq!(Operation::default(), Operation::Empty);
}

#[test]
fn dates_split_by_position() {
    let d = EdiDate::from_string("20240115".to_string()).unwrap();
    assert_eq!((d.year.as_str(), d.month.as_str(), d.day.as_str()), ("2024", "01", "15"));
    assert_eq!(d.stamp(), "2024-01-15 00:00:00.000");
    let odd = EdiDate::from_string("99999999".to_string()).unwrap();
    assert_eq!((odd.year.as_str(), odd.month.as_str(), odd.day.as_str()), ("9999", "99", "99"));
    let text = EdiDate::from_string("abcdefgh".to_string()).unwrap();
    assert_eq!(text.stamp(), "abcd-ef-gh 00:00:00.000");
    for bad in ["", "2024011", "202401155", "2024-01-15"] {
        let e = EdiDate::from_string(bad.to_string()).unwrap_err();
        assert_eq!(e.kind, EdiErrorKind::MalformedDate);
        assert_eq!(
            e.message,
            "Date value should be in format 'yyyymmdd'. String 8 chars long that is."
        );
    }
    let empty = EdiDate::new();
    assert_eq!(empty.stamp(), "-- 00:00:00.000");
}

#[test]
fn header_line_decodes_to_party() {
    let p = EdiParty::from_line(header_line("SE", "1234567", "FI")).unwrap();
    assert_eq!(p.owner, EdiOwnership::Seller);
    assert_eq!(p.id, "1234567");
    assert_eq!(p.code, "FI");
    assert!(p.is_seller());
    assert!(!p.is_buyer());
    assert_eq!(p.party_dir().unwrap(), vec!["sellers", "1234567"]);
    let b = EdiParty::from_line(header_line("BY", "B-9", "")).unwrap();
    assert_eq!(b.owner, EdiOwnership::Buyer);
    assert!(b.is_buyer());
    assert_eq!(b.id, "B-9");
    assert_eq!(b.code, "");
    assert_eq!(b.party_dir().unwrap(), vec!["buyers", "B-9"]);
    assert!(p.same_as(&p));
    assert!(!p.same_as(&b));
    let long = format!("{}trailing", header_line("SE", "1234567", "FI"));
    assert_eq!(EdiParty::from_line(long).unwrap(), p);
}

#[test]
fn header_line_errors() {
    let e = EdiParty::from_line("".to_string()).unwrap_err();
    assert_eq!(e.kind, EdiErrorKind::TruncatedRecord);
    assert_eq!(e.message, "Failed to extract [0-1] from line ''");
    let e = EdiParty::from_line(" SE".to_string()).unwrap_err();
    assert_eq!(e.kind, EdiErrorKind::InvalidRowMarker);
    assert_eq!(e.message, "Trying to extract party id from pointer with invalid length.");
    let e = EdiParty::from_line("RSE1234567".to_string()).unwrap_err();
    assert_eq!(e.kind, EdiErrorKind::InvalidRowMarker);
    assert_eq!(e.message, "Party identifier is fixed 'O', found 'R'");
    let e = EdiParty::from_line("O".to_string()).unwrap_err();
    assert_eq!(e.kind, EdiErrorKind::TruncatedRecord);
    assert_eq!(e.message, "Failed to extract [1-2] from line 'O'");
    let e = EdiParty::from_line(header_line("XX", "1", "2")).unwrap_err();
    assert_eq!(e.kind, EdiErrorKind::InvalidOwnership);
    assert_eq!(e.message, "Invalid party identifier. Owner should be BY or SE");
    let e = EdiParty::from_line("OSE123".to_string()).unwrap_err();
    assert_eq!(e.kind, EdiErrorKind::TruncatedRecord);
    assert_eq!(e.message, "Failed to extract [3-17] from line 'OSE123'");
    let twenty_two: String = header_line("SE", "1234567", "FI").chars().take(22).collect();
    let e = EdiParty::from_line(twenty_two.clone()).unwrap_err();
    assert_eq!(e.kind, EdiErrorKind::TruncatedRecord);
    assert_eq!(e.message, format!("Failed to extract [20-3] from line '{}'", twenty_two));
    let e = EdiParty::from_line("X".to_string()).unwrap_err();
    assert_eq!(e.kind, EdiErrorKind::InvalidRowMarker);
}

#[test]
fn shared_party_has_no_home() {
    let p = EdiParty::new();
    assert_eq!(p.owner, EdiOwnership::Shared);
    assert!(!p.is_seller());
    assert!(!p.is_buyer());
    let e = p.party_dir().unwrap_err();
    assert_eq!(e.kind, EdiErrorKind::InvalidOwnership);
    assert_eq!(e.message, "Unable to read title as seller nor buyer.");
    let e = EdiOwnership::Shared.to_path().unwrap_err();
    assert_eq!(e.kind, EdiErrorKind::InvalidOwnership);
    assert_eq!(e.message, "Can't resolve paths to shared ownership.");
    assert_eq!(EdiOwnership::Seller.to_path().unwrap(), "sellers");
    assert_eq!(EdiOwnership::Buyer.to_path().unwrap(), "buyers");
}

#[test]
fn create_resolves_home() {
    let (path, id) = EdiParty::create(header_line("SE", "S1", "FI")).unwrap();
    assert_eq!(path, vec!["sellers", "S1"]);
    assert_eq!(id, "S1");
    let (path, id) = EdiParty::create(header_line("BY", "B1", "FI")).unwrap();
    assert_eq!(path, vec!["buyers", "B1"]);
    assert_eq!(id, "B1");
    assert!(is_seller_home(&vec!["sellers".to_string(), "S1".to_string()]));
    assert!(!is_seller_home(&vec!["buyers".to_string(), "B1".to_string()]));
    assert!(!is_seller_home(&Vec::new()));
    let e = EdiParty::create("R".to_string()).unwrap_err();
    assert_eq!(e.kind, EdiErrorKind::InvalidRowMarker);
    assert_eq!(
        e.message,
        "Failed to read string as EDI header: Party identifier is fixed 'O', found 'R'"
    );
}

#[test]
fn header_reads_first_two_lines() {
    let lines = vec![
        header_line("BY", "B1", "FI"),
        header_line("SE", "S1", "FI"),
        "garbage".to_string(),
    ];
    let h = EdiHeader::read(&lines).unwrap();
    assert_eq!(h.buyer.as_ref().unwrap().id, "B1");
    assert_eq!(h.seller.as_ref().unwrap().id, "S1");
    let swapped = vec![header_line("SE", "S1", "FI"), header_line("BY", "B1", "FI")];
    assert_eq!(EdiHeader::read(&swapped).unwrap(), h);
    let one = vec![header_line("SE", "S1", "FI")];
    let h1 = EdiHeader::read(&one).unwrap();
    assert!(h1.buyer.is_none());
    assert_eq!(h1.seller.unwrap().id, "S1");
    let none = EdiHeader::read(&Vec::new()).unwrap();
    assert_eq!(none, EdiHeader::new());
    let two_sellers = vec![header_line("SE", "S1", "FI"), header_line("SE", "S2", "FI")];
    let h2 = EdiHeader::read(&two_sellers).unwrap();
    assert_eq!(h2.seller.unwrap().id, "S2");
    let bad = vec![header_line("BY", "B1", "FI"), "nonsense".to_string()];
    let e = EdiHeader::read(&bad).unwrap_err();
    assert_eq!(e.kind, EdiErrorKind::InvalidRowMarker);
    assert_eq!(
        e.message,
        "Failed to read header line: Party identifier is fixed 'O', found 'n'"
    );
}

#[test]
fn lines_take_their_role_from_position() {
    let (line, w) = EdiLine::line_read(Ok("OBY".to_string()), 0, 10).unwrap();
    assert_eq!(line, Some(EdiLine::Buyer("OBY".to_string())));
    assert!(w.is_empty());
    let (line, w) = EdiLine::line_read(Ok("OSE way too long for ten".to_string()), 1, 10).unwrap();
    assert_eq!(line, Some(EdiLine::Seller("OSE way too long for ten".to_string())));
    assert!(w.is_empty());
    let (line, w) = EdiLine::line_read(Ok("R234567890".to_string()), 2, 10).unwrap();
    assert_eq!(line, Some(EdiLine::Entry("R234567890".to_string())));
    assert!(w.is_empty());
    for i in [0usize, 1, 2, 77] {
        for blank in ["", " ", "\t  \u{a0}"] {
            let (line, w) = EdiLine::line_read(Ok(blank.to_string()), i, 10).unwrap();
            assert_eq!(line, None);
            assert!(w.is_empty());
        }
    }
}

#[test]
fn short_entry_is_taken_with_warning() {
    let (line, w) = EdiLine::line_read(Ok("R23".to_string()), 4, 10).unwrap();
    assert_eq!(line, Some(EdiLine::Entry("R23".to_string())));
    assert_eq!(w, vec!["Line: 5, length 3 is smaller than the expected length 10"]);
    let (line, w) = EdiLine::line_read(Ok("Rää".to_string()), 9, 10).unwrap();
    assert_eq!(line, Some(EdiLine::Entry("Rää".to_string())));
    assert_eq!(w, vec!["Line: 10, length 5 is smaller than the expected length 10"]);
}

#[test]
fn trim_and_retry() {
    let record = "R234567890";
    let padded = format!("{}     ", record);
    assert_eq!(padded.chars().count(), 15);
    let (line, w) = EdiLine::line_read(Ok(padded), 2, 10).unwrap();
    assert_eq!(line, Some(EdiLine::Entry(record.to_string())));
    assert!(w.is_empty());
    let too_long = format!("{}ABCDE", record);
    let (line, w) = EdiLine::line_read(Ok(too_long.clone()), 2, 10).unwrap();
    assert_eq!(line, None);
    assert_eq!(
        w,
        vec![format!(
            "Skipping line 3, length 15 is greater than expexted 10 ({})",
            too_long
        )]
    );
    let (line, w) = EdiLine::line_read(Ok("  R2  ".to_string() + "          "), 5, 10).unwrap();
    assert_eq!(line, Some(EdiLine::Entry("  R2".to_string())));
    assert!(w.is_empty());
    let (line, w) = EdiLine::line_read(Ok("     R234567890".to_string()), 5, 10).unwrap();
    assert_eq!(line, None);
    assert_eq!(
        w,
        vec!["Skipping line 6, length 15 is greater than expexted 10 (     R234567890)"]
    );
}

#[test]
fn unreadable_line_is_an_error() {
    let failure = std::io::Error::new(std::io::ErrorKind::InvalidData, "stream did not contain valid UTF-8");
    let e = EdiLine::line_read(Err(failure), 6, 10).unwrap_err();
    assert_eq!(e.kind, EdiErrorKind::UnreadableLine);
    assert_eq!(
        e.message,
        "Line 7, Unable to read as text string: stream did not contain valid UTF-8"
    );
    let at_end = std::io::Error::new(std::io::ErrorKind::Other, "x");
    let e = EdiLine::line_read(Err(at_end), usize::MAX, 10).unwrap_err();
    assert_eq!(
        e.message,
        format!("Line {}, Unable to read as text string: x", usize::MAX as u128 + 1)
    );
}

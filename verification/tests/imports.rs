use edi_import::config::{find_seller, ImportTargets, Seller};
use edi_import::edi::discounts::{discounts_import, EXPL_SEQ_DISC};
use edi_import::edi::header::EdiOwnership;
use edi_import::edi::prices::{prices_import, Price, EXPL_SEQ_PRICE};
use edi_import::edi::products::{products_import, Product, EXPL_SEQ_PRODUCT};
use edi_import::edi::{
    classify, read_file_buyer, read_file_seller, ArchiveName, EdiKind, EdiType, ImportAction,
    ImportEvent, ImportState,
};
use edi_import::error::EdiErrorKind;
use edi_import::files::{archive_dir, edi_file_imported, SourceFile};
use edi_import::edi::header::EdiHeader;
use edi_import::snapshot::{Catalog, Snapshot};
use edi_import::store::{
    discount_row_id, in_stock, price_discount_groups, price_groups, price_units,
    product_discount_groups, product_languages, product_units, seller_row_id, translation_row_id,
};
use edi_import::utils::{Category, Lang};

fn build(widths: &[usize], values: &[&str]) -> String {
    let mut line = String::new();
    for (w, v) in widths.iter().zip(values.iter()) {
        line.push_str(v);
        for _ in v.chars().count()..*w {
            line.push(' ');
        }
    }
    line
}

fn product_line(category: &str, id: &str, lang: &str, name: &str, unit: &str, group: &str) -> String {
    build(
        &EXPL_SEQ_PRODUCT,
        &[
            "R", category, id, "2", lang, "20240115", name, "kuvaus", "", "", group, unit, "", "",
            "", "", "", "", "", "", "", "", "", "", "", "", "000010000",
        ],
    )
}

fn price_line(category: &str, id: &str, group: &str, price: &str, discount: &str, unit: &str) -> String {
    build(
        &EXPL_SEQ_PRICE,
        &[
            "R", category, id, group, price, "20240115", discount, unit, "1", "", "", "", "", "",
            "", "", "000010000", "", "00",
        ],
    )
}

fn discount_line(group: &str, id: &str, price_group: &str, pc1: &str) -> String {
    build(&EXPL_SEQ_DISC, &["R", group, id, "nimi", price_group, pc1, "000000000"])
}

fn header(owner: &str, id: &str) -> String {
    format!("O{:<2}{:<17}{:<3}", owner, id, "FI")
}

fn seller(id: &str, name: &str) -> Seller {
    Seller { id: id.to_string(), name: name.to_string(), lv: None, iv: None, sa: None, te: None, ky: None }
}

fn keys_of<T>(s: &Snapshot<T>) -> Vec<String> {
    let mut keys = Vec::new();
    let mut i = 0;
    while i < s.len() {
        keys.push(s.key(i).to_string());
        i += 1;
    }
    keys
}

fn two_language_file() -> Vec<String> {
    vec![
        header("BY", "B1"),
        header("SE", "S1"),
        product_line("L", "P1", "fin", "Putki", "m", "G1"),
        product_line("L", "P1", "swe", "Rör", "m", "G1"),
        product_line("S", "P2", "fin", "Kaapeli", "kpl", ""),
        product_line("L", "P3", "swe", "Ventil", "st", "G2"),
        product_line("L", "P1", "fin", "Putki uusi", "m", "G1"),
    ]
}

#[test]
fn product_import_merges_by_identifier() {
    let lines = two_language_file();
    let sellers = vec![seller("S0", "Other"), seller("S1", "Tukku Oy")];
    let batch = products_import(&lines, &Lang::Fin, &sellers, Catalog::new()).unwrap();
    assert_eq!(batch.supplier_dir, vec!["sellers", "S1"]);
    assert_eq!(batch.seller_id, "S1");
    assert_eq!(batch.seller_name.as_deref(), Some("Tukku Oy"));
    let lv = batch.catalog.get(Category::WaterAndHeating).unwrap();
    assert_eq!(keys_of(lv), vec!["P1"]);
    assert_eq!(lv.get("P1").unwrap().name, "Putki uusi");
    let sa = batch.catalog.get(Category::Electricity).unwrap();
    assert_eq!(keys_of(sa), vec!["P2"]);
    assert!(batch.catalog.get(Category::Ventilation).is_none());
    assert!(batch.catalog.get(Category::Unset).is_none());
    assert_eq!(
        batch.warnings,
        vec!["Product read: Language filter set to 'fin' and product lang is 'swe'"]
    );
}

#[test]
fn multi_language_fan_out() {
    let lines = two_language_file();
    let sellers = vec![seller("S1", "Tukku Oy")];
    let fin = products_import(&lines, &Lang::Fin, &sellers, Catalog::new()).unwrap();
    let swe = products_import(&lines, &Lang::Swe, &sellers, Catalog::new()).unwrap();
    let fin_lv = keys_of(fin.catalog.get(Category::WaterAndHeating).unwrap());
    let swe_lv = keys_of(swe.catalog.get(Category::WaterAndHeating).unwrap());
    assert_eq!(fin_lv, vec!["P1"]);
    assert_eq!(swe_lv, vec!["P1", "P3"]);
    assert_eq!(keys_of(fin.catalog.get(Category::Electricity).unwrap()), vec!["P2"]);
    assert!(swe.catalog.get(Category::Electricity).is_none());
    for p in fin.catalog.list() {
        assert_eq!(p.lang, Lang::Fin);
    }
    for p in swe.catalog.list() {
        assert_eq!(p.lang, Lang::Swe);
    }
    assert_eq!(
        swe.catalog.get(Category::WaterAndHeating).unwrap().get("P1").unwrap().name,
        "Rör"
    );
    assert_eq!(seller_row_id("S1", "P1"), "S1P1");
    assert_eq!(translation_row_id("S1", "P1", &Lang::Fin), "S1P11");
    assert_eq!(translation_row_id("S1", "P1", &Lang::Swe), "S1P12");
    assert_eq!(translation_row_id("S1", "P1", &Lang::Eng), "S1P13");
    assert_eq!(translation_row_id("S1", "P1", &Lang::Nor), "S1P14");
    assert_eq!(product_languages(&fin.catalog.list()), vec![Lang::Fin]);
    assert_eq!(product_languages(&swe.catalog.list()), vec![Lang::Swe]);
}

#[test]
fn product_import_overlays_existing_snapshot() {
    let (old_p1, _) = Product::from_line(product_line("L", "P1", "fin", "Vanha", "m", "G0"), None).unwrap();
    let (old_p9, _) = Product::from_line(product_line("L", "P9", "fin", "Pysyy", "kg", "G9"), None).unwrap();
    let mut lv = Snapshot::new();
    lv.insert("P9".to_string(), old_p9);
    lv.insert("P1".to_string(), old_p1);
    let mut existing = Catalog::new();
    existing.put(Category::WaterAndHeating, lv);
    existing.put(Category::Industrial, Snapshot::new());
    let batch = products_import(&two_language_file(), &Lang::Fin, &Vec::new(), existing).unwrap();
    let lv = batch.catalog.get(Category::WaterAndHeating).unwrap();
    assert_eq!(keys_of(lv), vec!["P9", "P1"]);
    assert_eq!(lv.get("P1").unwrap().name, "Putki uusi");
    assert_eq!(lv.get("P1").unwrap().discount_group.as_deref(), Some("G1"));
    assert_eq!(lv.get("P9").unwrap().name, "Pysyy");
    assert_eq!(batch.catalog.get(Category::Industrial).unwrap().len(), 0);
    assert_eq!(batch.seller_name, None);
    assert_eq!(
        batch.warnings,
        vec![
            "Product read: Language filter set to 'fin' and product lang is 'swe'",
            "Unable to find config for seller ID S1, skipping seller...",
        ]
    );
    let products = batch.catalog.list();
    assert_eq!(product_units(&products), vec!["kg", "kpl", "m"]);
    assert_eq!(product_discount_groups(&products), vec!["G1", "G9"]);
    assert_eq!(product_languages(&products), vec![Lang::Fin]);
}

#[test]
fn product_import_warnings_are_sorted_and_distinct() {
    let mut lines = two_language_file();
    lines.push("R".to_string());
    lines.push(String::new());
    lines.push(format!("{}     ", product_line("P", "P7", "fin", "Pitkä", "m", "")));
    lines.push(format!("{}XYZ", product_line("P", "P8", "fin", "Liian pitkä", "m", "")));
    lines.push("R".to_string());
    let batch = products_import(&lines, &Lang::Fin, &vec![seller("S1", "x")], Catalog::new()).unwrap();
    assert_eq!(keys_of(batch.catalog.get(Category::Industrial).unwrap()), vec!["P7"]);
    let too_long = format!("{}XYZ", product_line("P", "P8", "fin", "Liian pitkä", "m", ""));
    let mut want = vec![
        "Product read: Language filter set to 'fin' and product lang is 'swe'".to_string(),
        "Line: 8, length 1 is smaller than the expected length 232".to_string(),
        "Line: 12, length 1 is smaller than the expected length 232".to_string(),
        "Product read: Failed to extract [1-1] from line 'R'".to_string(),
        format!(
            "Skipping line 11, length {} is greater than expexted 232 ({})",
            too_long.len(),
            too_long
        ),
    ];
    want.sort();
    want.dedup();
    assert_eq!(batch.warnings, want);
}

#[test]
fn product_import_fails_on_bad_seller_header() {
    let lines = vec![header("BY", "B1"), "nonsense".to_string()];
    let e = products_import(&lines, &Lang::Fin, &Vec::new(), Catalog::new()).err().unwrap();
    assert_eq!(e.kind, EdiErrorKind::InvalidRowMarker);
    assert_eq!(
        e.message,
        "Failed to create seller dir: Failed to read string as EDI header: Party identifier is fixed 'O', found 'n'"
    );
    let no_seller = vec![header("BY", "B1")];
    let batch = products_import(&no_seller, &Lang::Fin, &Vec::new(), Catalog::new()).unwrap();
    assert!(batch.supplier_dir.is_empty());
    assert_eq!(batch.seller_id, "");
    assert!(batch.warnings.is_empty());
    assert!(batch.catalog.list().is_empty());
}

#[test]
fn price_import_merges_and_lists_lookups() {
    let lines = vec![
        header("BY", "B1"),
        header("SE", "S1"),
        price_line("L", "P1", "01", "000010000", "G1", "m"),
        price_line("S", "P2", "02", "000000250", "G2", "kpl"),
        "Rnot a price".to_string(),
        price_line("L", "P1", "01", "000012000", "G1", "m"),
    ];
    let (old, _) = Price::from_line(price_line("K", "P5", "09", "000000100", "G5", "kg")).unwrap();
    let mut ky = Snapshot::new();
    ky.insert("P5".to_string(), old);
    let mut existing = Catalog::new();
    existing.put(Category::Refrigeration, ky);
    let batch = prices_import(&lines, &vec![seller("S1", "Tukku Oy")], existing).unwrap();
    assert_eq!(batch.supplier_dir, vec!["sellers", "S1"]);
    assert_eq!(batch.seller_id, "S1");
    assert_eq!(batch.seller_name.as_deref(), Some("Tukku Oy"));
    let lv = batch.catalog.get(Category::WaterAndHeating).unwrap();
    assert_eq!(keys_of(lv), vec!["P1"]);
    assert_eq!(lv.get("P1").unwrap().price.whole, "0000120");
    assert_eq!(keys_of(batch.catalog.get(Category::Refrigeration).unwrap()), vec!["P5"]);
    assert_eq!(
        batch.warnings,
        vec![
            "Line: 5, length 12 is smaller than the expected length 100",
            "price read error 'Invalid EDI category 'n' provided', line: 5",
        ]
    );
    let prices = batch.catalog.list();
    assert_eq!(prices.len(), 3);
    assert_eq!(price_units(&prices), vec!["kg", "kpl", "m"]);
    assert_eq!(price_discount_groups(&prices), vec!["G1", "G2", "G5"]);
    assert_eq!(price_groups(&prices), vec!["01", "02", "09"]);
}

#[test]
fn discount_import_takes_known_groups() {
    let lines = vec![
        header("BY", "B1"),
        header("SE", "S1"),
        discount_line("G1", "D1", "01", "000001000"),
        discount_line("G7", "D2", "01", "000002000"),
        discount_line("G2", "D3", "05", "000003000"),
        "Rubbish".to_string(),
        discount_line("G2", "D4", "02", "000004000"),
    ];
    let groups = vec!["G1".to_string(), "G2".to_string()];
    let price_groups = vec!["01".to_string(), "02".to_string()];
    let batch = discounts_import(&lines, &groups, &price_groups).unwrap();
    assert_eq!(batch.buyer_id, "B1");
    assert_eq!(batch.seller_id, "S1");
    assert_eq!(batch.seller_dir, vec!["sellers", "S1"]);
    assert_eq!(batch.buyer_key, "B1S1");
    assert_eq!(batch.buyer_dir, vec!["sellers", "S1", "buyers", "B1"]);
    let ids: Vec<&str> = batch.discounts.iter().map(|d| d.id.as_str()).collect();
    assert_eq!(ids, vec!["D1", "D4"]);
    assert_eq!(
        batch.warnings,
        vec![
            "Line: 6, length 7 is smaller than the expected length 92",
            "[G2]: Ignoring as price group '05' was not found",
            "[G7]: Ignoring as discount group was not found",
            "discount read error 'Failed to extract [7-25] from line 'Rubbish'', line: 6",
        ]
    );
    assert_eq!(batch.uuid.chars().count(), 20);
    assert!(batch.uuid.chars().all(|c| c.is_ascii_alphanumeric()));
    let again = discounts_import(&lines, &groups, &price_groups).unwrap();
    assert_ne!(again.uuid, batch.uuid);
    assert_eq!(discount_row_id(&batch.buyer_key, "G1"), "B1S1G1");
}

#[test]
fn discount_import_header_errors() {
    let bad_buyer = vec!["x".to_string(), "y".to_string()];
    let e = discounts_import(&bad_buyer, &Vec::new(), &Vec::new()).unwrap_err();
    assert_eq!(
        e.message,
        "Failed to read buyer from header: Failed to read string as EDI header: Party identifier is fixed 'O', found 'x'"
    );
    let bad_seller = vec![header("BY", "B1"), "y".to_string()];
    let e = discounts_import(&bad_seller, &Vec::new(), &Vec::new()).unwrap_err();
    assert_eq!(
        e.message,
        "Failed to create seller dir: Failed to read string as EDI header: Party identifier is fixed 'O', found 'y'"
    );
    assert_eq!(read_file_buyer(&vec![header("BY", "B7")]).unwrap(), "B7");
    assert_eq!(read_file_buyer(&vec![" ".to_string()]).unwrap(), "");
    assert_eq!(read_file_buyer(&Vec::new()).unwrap(), "");
    assert_eq!(
        read_file_seller(&vec![String::new(), header("SE", "S7")]).unwrap(),
        (vec!["sellers".to_string(), "S7".to_string()], "S7".to_string())
    );
    assert_eq!(read_file_seller(&vec![header("SE", "S7")]).unwrap(), (Vec::new(), String::new()));
}

fn file(lines: Vec<String>) -> SourceFile {
    let bytes = lines.join("\n").into_bytes();
    SourceFile { lines, bytes }
}

#[test]
fn redelivery_is_recognised() {
    let a = file(vec![header("BY", "B1"), header("SE", "S1"), "R one".to_string()]);
    let a_again = file(vec![header("BY", "B1"), header("SE", "S1"), "R one".to_string()]);
    let same_size = file(vec![header("BY", "B1"), header("SE", "S1"), "R two".to_string()]);
    let other_seller = file(vec![header("BY", "B1"), header("SE", "S2"), "R one".to_string()]);
    let longer = file(vec![header("BY", "B1"), header("SE", "S1"), "R one more".to_string()]);
    assert_eq!(a.bytes.len(), same_size.bytes.len());
    assert_eq!(edi_file_imported(EdiOwnership::Seller, &a_again, &vec![a.clone()]).unwrap(), true);
    assert_eq!(edi_file_imported(EdiOwnership::Buyer, &a_again, &vec![a.clone()]).unwrap(), true);
    assert_eq!(edi_file_imported(EdiOwnership::Seller, &a_again, &Vec::new()).unwrap(), false);
    assert_eq!(
        edi_file_imported(EdiOwnership::Seller, &a_again, &vec![same_size.clone()]).unwrap(),
        false
    );
    assert_eq!(
        edi_file_imported(EdiOwnership::Seller, &a_again, &vec![longer.clone()]).unwrap(),
        false
    );
    assert_eq!(
        edi_file_imported(EdiOwnership::Seller, &a_again, &vec![other_seller.clone()]).unwrap(),
        false
    );
    assert_eq!(
        edi_file_imported(
            EdiOwnership::Seller,
            &a_again,
            &vec![same_size, longer, other_seller, a.clone()]
        )
        .unwrap(),
        true
    );
    let mut forged = a.clone();
    forged.lines[1] = header("SE", "S2");
    assert_eq!(edi_file_imported(EdiOwnership::Seller, &a_again, &vec![forged]).unwrap(), false);
}

#[test]
fn duplicate_check_errors() {
    let a = file(vec![header("BY", "B1"), header("SE", "S1"), "R one".to_string()]);
    let e = edi_file_imported(EdiOwnership::Shared, &a, &Vec::new()).unwrap_err();
    assert_eq!(e.kind, EdiErrorKind::InvalidOwnership);
    let only_buyer = file(vec![header("BY", "B1")]);
    let e = edi_file_imported(EdiOwnership::Seller, &only_buyer, &Vec::new()).unwrap_err();
    assert_eq!(e.kind, EdiErrorKind::MissingParty);
    let e = edi_file_imported(EdiOwnership::Buyer, &only_buyer, &Vec::new()).unwrap_err();
    assert_eq!(e.kind, EdiErrorKind::MissingParty);
    assert_eq!(e.message, "EDI file header has buyer reference but not seller");
    let only_seller = file(vec![header("SE", "S1")]);
    let e = edi_file_imported(EdiOwnership::Buyer, &only_seller, &Vec::new()).unwrap_err();
    assert_eq!(e.kind, EdiErrorKind::MissingParty);
    let broken = file(vec!["junk".to_string()]);
    let e = edi_file_imported(EdiOwnership::Seller, &broken, &Vec::new()).unwrap_err();
    assert_eq!(e.kind, EdiErrorKind::InvalidRowMarker);
    let e = edi_file_imported(EdiOwnership::Seller, &a, &vec![a.clone(), broken]).unwrap_err();
    assert_eq!(e.kind, EdiErrorKind::InvalidRowMarker);
}

#[test]
fn archive_lies_under_the_party_home() {
    let head = EdiHeader::read(&vec![header("BY", "B1"), header("SE", "S1")]).unwrap();
    assert_eq!(archive_dir(&head, EdiOwnership::Seller).unwrap(), vec!["sellers", "S1", "edi"]);
    assert_eq!(
        archive_dir(&head, EdiOwnership::Buyer).unwrap(),
        vec!["sellers", "S1", "buyers", "B1", "edi"]
    );
    assert!(archive_dir(&head, EdiOwnership::Shared).is_err());
}

fn run(kind: EdiKind, duplicate: bool, langs: &Vec<Lang>, fail_at: Option<usize>) -> Vec<ImportAction> {
    let (mut state, mut action) = EdiType::import_begin(kind);
    let mut actions = vec![action];
    let mut passes = 0;
    loop {
        let event = match action {
            ImportAction::Compare(_) => ImportEvent::Compared { duplicate },
            ImportAction::StoreProducts(_) | ImportAction::StorePrices | ImportAction::StoreDiscounts => {
                passes += 1;
                if fail_at == Some(passes - 1) {
                    ImportEvent::Failed
                } else {
                    ImportEvent::Stored
                }
            }
            ImportAction::Archive(_) | ImportAction::Delete => ImportEvent::Done,
            ImportAction::Return(_) | ImportAction::Abort => break,
        };
        let next = EdiType::import_step(state, event, langs);
        state = next.0;
        action = next.1;
        actions.push(action);
    }
    assert_eq!(state, ImportState::Finished);
    actions
}

#[test]
fn import_steps_of_each_kind() {
    let langs = vec![Lang::Fin, Lang::Swe];
    assert_eq!(
        run(EdiKind::Product, false, &langs, None),
        vec![
            ImportAction::Compare(EdiOwnership::Seller),
            ImportAction::StoreProducts(Lang::Fin),
            ImportAction::StoreProducts(Lang::Swe),
            ImportAction::Archive(ArchiveName::Delivered),
            ImportAction::Return(EdiType::Product(true)),
        ]
    );
    assert_eq!(
        run(EdiKind::Product, false, &langs, Some(0)),
        vec![
            ImportAction::Compare(EdiOwnership::Seller),
            ImportAction::StoreProducts(Lang::Fin),
            ImportAction::Abort,
        ]
    );
    assert_eq!(
        run(EdiKind::Product, false, &langs, Some(1)),
        vec![
            ImportAction::Compare(EdiOwnership::Seller),
            ImportAction::StoreProducts(Lang::Fin),
            ImportAction::StoreProducts(Lang::Swe),
            ImportAction::Abort,
        ]
    );
    assert_eq!(
        run(EdiKind::Discount, false, &langs, Some(0)),
        vec![
            ImportAction::Compare(EdiOwnership::Buyer),
            ImportAction::StoreDiscounts,
            ImportAction::Abort,
        ]
    );
    assert_eq!(
        run(EdiKind::Product, false, &Vec::new(), None),
        vec![
            ImportAction::Compare(EdiOwnership::Seller),
            ImportAction::Archive(ArchiveName::Delivered),
            ImportAction::Return(EdiType::Product(true)),
        ]
    );
    assert_eq!(
        run(EdiKind::Price, false, &langs, None),
        vec![
            ImportAction::Compare(EdiOwnership::Seller),
            ImportAction::StorePrices,
            ImportAction::Archive(ArchiveName::Delivered),
            ImportAction::Return(EdiType::Price(true)),
        ]
    );
    assert_eq!(
        run(EdiKind::Price, false, &langs, Some(0)),
        vec![
            ImportAction::Compare(EdiOwnership::Seller),
            ImportAction::StorePrices,
            ImportAction::Abort,
        ]
    );
    assert_eq!(
        run(EdiKind::Discount, false, &langs, None),
        vec![
            ImportAction::Compare(EdiOwnership::Buyer),
            ImportAction::StoreDiscounts,
            ImportAction::Archive(ArchiveName::Discounts),
            ImportAction::Return(EdiType::Discount(true)),
        ]
    );
    assert_eq!(
        run(EdiKind::Unrecognized, false, &langs, None),
        vec![ImportAction::Delete, ImportAction::Return(EdiType::Invalid)]
    );
    assert_eq!(ArchiveName::Delivered.resolve("abc.txt"), "abc.txt");
    assert_eq!(ArchiveName::Discounts.resolve("abc.txt"), "discounts.txt");
}

#[test]
fn file_without_entries_is_removed() {
    let langs = vec![Lang::Fin, Lang::Swe];
    for lines in [
        vec![header("BY", "B1"), header("SE", "S1")],
        vec![header("BY", "B1")],
        Vec::new(),
        vec![header("BY", "B1"), header("SE", "S1"), "matches no decoder".to_string()],
    ] {
        let kind = classify(&lines);
        assert_eq!(kind, EdiKind::Unrecognized);
        assert_eq!(
            run(kind, false, &langs, None),
            vec![ImportAction::Delete, ImportAction::Return(EdiType::Invalid)]
        );
    }
}

#[test]
fn redelivery_is_skipped() {
    let langs = vec![Lang::Fin, Lang::Swe];
    for (kind, outcome) in [
        (EdiKind::Product, EdiType::Product(false)),
        (EdiKind::Price, EdiType::Price(false)),
        (EdiKind::Discount, EdiType::Discount(false)),
    ] {
        let actions = run(kind, true, &langs, None);
        assert_eq!(actions.len(), 3);
        assert_eq!(actions[1], ImportAction::Delete);
        assert_eq!(actions[2], ImportAction::Return(outcome));
    }
    let (state, _) = EdiType::import_begin(EdiKind::Price);
    assert_eq!(
        EdiType::import_step(state, ImportEvent::Failed, &langs),
        (ImportState::Finished, ImportAction::Abort)
    );
    assert_eq!(
        EdiType::import_step(ImportState::Finished, ImportEvent::Done, &langs),
        (ImportState::Finished, ImportAction::Abort)
    );
    assert_eq!(
        EdiType::import_step(ImportState::Products(usize::MAX), ImportEvent::Stored, &langs).1,
        ImportAction::Archive(ArchiveName::Delivered)
    );
}

#[test]
fn snapshot_keeps_one_record_per_identifier() {
    let mut s: Snapshot<u32> = Snapshot::new();
    assert_eq!(s.len(), 0);
    assert_eq!(s.get("a"), None);
    s.insert("a".to_string(), 1);
    s.insert("b".to_string(), 2);
    s.insert("a".to_string(), 3);
    assert_eq!(s.len(), 2);
    assert_eq!(s.get("a"), Some(&3));
    assert_eq!(s.get("b"), Some(&2));
    assert_eq!(s.get("c"), None);
    assert_eq!(s.find("b"), Some(1));
    assert_eq!(s.find("c"), None);
    assert_eq!(keys_of(&s), vec!["a", "b"]);
    assert_eq!(*s.value(0), 3);
    assert_eq!(*s.value(1), 2);
}

#[test]
fn lookups_and_flags() {
    assert_eq!(in_stock(None), true);
    assert_eq!(in_stock(Some(false)), false);
    assert_eq!(in_stock(Some(true)), true);
    let sellers = vec![seller("S1", "one"), seller("S2", "two"), seller("S1", "again")];
    assert_eq!(find_seller(&sellers, "S1"), Some(0));
    assert_eq!(find_seller(&sellers, "S2"), Some(1));
    assert_eq!(find_seller(&sellers, "S3"), None);
    assert_eq!(find_seller(&Vec::new(), "S1"), None);
    assert!(ImportTargets { json: true, sqlite: true, search: true }.check().is_ok());
    assert!(ImportTargets { json: true, sqlite: false, search: false }.check().is_ok());
    let e = ImportTargets { json: true, sqlite: false, search: true }.check().unwrap_err();
    assert_eq!(e.kind, EdiErrorKind::InvalidConfiguration);
    assert_eq!(e.message, "Search index importing requires sqlite import to be enabled.");
}

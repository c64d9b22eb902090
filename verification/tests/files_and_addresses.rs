use edi_import::config::Seller;
use edi_import::download::{
    download_name, file_part, replace_mark, tag_name, upload_name, url_collect, url_collect_at,
    url_ext,
};
use edi_import::error::EdiErrorKind;
use edi_import::files::{edifile_cleanup, same_bytes, transcode, Transcoded};
use edi_import::search::{search_body, search_change, search_changes, DbProductSearch, SearchChange};

#[test]
fn utf8_files_stay_as_they_are() {
    assert_eq!(transcode(b""), Transcoded::Unchanged);
    assert_eq!(transcode(b"plain ascii\n"), Transcoded::Unchanged);
    assert_eq!(transcode("hinta \u{e4}\u{f6} \u{20ac}".as_bytes()), Transcoded::Unchanged);
    assert_eq!(transcode("\u{10348}".as_bytes()), Transcoded::Unchanged);
}

#[test]
fn other_files_are_read_as_latin1() {
    assert_eq!(transcode(&[0x70, 0xe4, 0xe4]), Transcoded::Converted("p\u{e4}\u{e4}".to_string()));
    assert_eq!(
        transcode(&[0xff, 0x00, 0x80, 0x41]),
        Transcoded::Converted("\u{ff}\u{0}\u{80}A".to_string())
    );
    for bad in [
        vec![0xc3u8],
        vec![0xc0, 0x80],
        vec![0xed, 0xa0, 0x80],
        vec![0xf4, 0x90, 0x80, 0x80],
        vec![0x80],
        vec![0xe2, 0x82],
        vec![0xf8, 0x88, 0x80, 0x80, 0x80],
    ] {
        let want: String = bad.iter().map(|b| *b as char).collect();
        assert_eq!(transcode(&bad), Transcoded::Converted(want), "bytes {:x?}", bad);
        assert!(std::str::from_utf8(&bad).is_err());
    }
    let mut every = Vec::new();
    let mut b: u16 = 0;
    while b < 256 {
        every.push(b as u8);
        b += 1;
    }
    match transcode(&every) {
        Transcoded::Converted(text) => {
            let codes: Vec<u32> = text.chars().map(|c| c as u32).collect();
            let want: Vec<u32> = (0u32..256).collect();
            assert_eq!(codes, want);
        }
        Transcoded::Unchanged => panic!("all bytes cannot be UTF-8"),
    }
}

#[test]
fn cleanup_drops_empty_lines() {
    let buyer = format!("{:<23}", "OBY1");
    let seller = format!("{:<23}", "OSE2");
    let lines: Vec<String> = ["", buyer.as_str(), "", seller.as_str(), " ", "R1", ""]
        .iter()
        .map(|s| s.to_string())
        .collect();
    let kept = edifile_cleanup(lines).unwrap();
    assert_eq!(kept, vec![buyer.as_str(), seller.as_str(), " ", "R1"]);
    assert_eq!(edifile_cleanup(Vec::new()).unwrap(), Vec::<String>::new());
    let e = edifile_cleanup(vec![String::new(), "junk".to_string()]).unwrap_err();
    assert_eq!(e.kind, EdiErrorKind::InvalidRowMarker);
    assert_eq!(
        e.message,
        "Cleaned up EDI file has invalid header: Failed to read header line: Party identifier is fixed 'O', found 'j'"
    );
}

#[test]
fn bytes_compare() {
    assert!(same_bytes(&vec![], &vec![]));
    assert!(same_bytes(&vec![1, 2, 3], &vec![1, 2, 3]));
    assert!(!same_bytes(&vec![1, 2, 3], &vec![1, 2, 4]));
    assert!(!same_bytes(&vec![1, 2, 3], &vec![1, 2]));
}

#[test]
fn mark_is_replaced_as_std_replaces() {
    let cases = [
        ("", "{mmyy}", "0124"),
        ("no mark", "{mmyy}", "0124"),
        ("http://x/{mmyy}/lv_{mmyy}.zip", "{mmyy}", "0124"),
        ("{mmyy}", "{mmyy}", "0124"),
        ("{{mmyy}}", "{mmyy}", "0124"),
        ("{mmyy{mmyy}", "{mmyy}", ""),
        ("{mmy}{mmyy", "{mmyy}", "0124"),
        ("aaaa", "aa", "b"),
        ("aaa", "aa", "aaa"),
        ("ääkkönen", "ä", "a"),
        ("abc", "abcd", "x"),
    ];
    for (text, mark, with) in cases {
        assert_eq!(replace_mark(text, mark, with), text.replace(mark, with), "{:?}", text);
    }
    assert_eq!(replace_mark("abc", "", "x"), "abc");
}

fn lists(items: &[&[&str]]) -> Vec<Vec<String>> {
    items.iter().map(|l| l.iter().map(|s| s.to_string()).collect()).collect()
}

fn seller() -> Seller {
    Seller {
        id: "S1".to_string(),
        name: "Tukku".to_string(),
        lv: Some(lists(&[&["http://a/lv{mmyy}.zip", "http://b/lv.zip"]])),
        iv: None,
        sa: Some(lists(&[&["http://a/sa.zip"], &[], &["http://a/{mmyy}/{mmyy}"]])),
        te: Some(Vec::new()),
        ky: Some(lists(&[&["ky"]])),
    }
}

#[test]
fn addresses_are_collected_by_category() {
    let urls = url_collect_at(&seller(), "0924");
    assert_eq!(
        urls,
        lists(&[
            &["http://a/lv0924.zip", "http://b/lv.zip"],
            &["http://a/sa.zip"],
            &[],
            &["http://a/0924/0924"],
            &["ky"],
        ])
    );
    let mut more = lists(&[&["kept"]]);
    url_ext(&mut more, &lists(&[&["x{mmyy}"], &["y"]]), "1199");
    assert_eq!(more, lists(&[&["kept"], &["x1199"], &["y"]]));
    let none = Seller { lv: None, sa: None, te: None, ky: None, ..seller() };
    assert!(url_collect_at(&none, "0924").is_empty());
}

#[test]
fn addresses_are_dated_with_the_present_month() {
    let urls = url_collect(&seller());
    assert_eq!(urls.len(), 5);
    let first = &urls[0][0];
    assert!(first.starts_with("http://a/lv"));
    assert!(first.ends_with(".zip"));
    let token = &first["http://a/lv".len()..first.len() - ".zip".len()];
    assert_eq!(token.len(), 4);
    assert!(token.chars().all(|c| c.is_ascii_digit()));
    let month: u32 = token[0..2].parse().unwrap();
    assert!(1 <= month && month <= 12);
    assert_eq!(urls, url_collect_at(&seller(), token));
}

#[test]
fn stored_names_carry_a_random_token() {
    assert_eq!(file_part("http://host/dir/file.zip"), "file.zip");
    assert_eq!(file_part("file.zip"), "file.zip");
    assert_eq!(file_part("http://host/dir/"), "");
    assert_eq!(file_part(""), "");
    assert_eq!(file_part("/"), "");
    assert_eq!(tag_name("abc", "file.txt"), "abc-file.txt");
    let name = download_name("http://host/dir/file.zip");
    assert_eq!(name.len(), 10 + 1 + "file.zip".len());
    assert!(name.ends_with("-file.zip"));
    assert!(name[..10].chars().all(|c| c.is_ascii_alphanumeric()));
    assert_ne!(download_name("http://host/dir/file.zip"), name);
    let up = upload_name("prices.txt");
    assert_eq!(up.len(), 21);
    assert!(up.ends_with("-prices.txt"));
    assert!(up[..10].chars().all(|c| c.is_ascii_alphanumeric()));
}

fn row(lang: i8, seller: &str, product: &str, body: &str) -> DbProductSearch {
    DbProductSearch {
        lang,
        seller_id: seller.to_string(),
        product_id: product.to_string(),
        body: body.to_string(),
    }
}

#[test]
fn search_body_joins_the_texts() {
    assert_eq!(search_body("Putki", None, None, None, None), "Putki");
    assert_eq!(
        search_body("Putki", Some("Tukku"), Some("kupari"), Some("lvi"), Some("P15")),
        "Putki, Tukku, kupari, lvi, P15"
    );
    assert_eq!(search_body("Putki", None, Some(""), None, Some("P15")), "Putki, P15");
    assert_eq!(search_body("Putki", Some(""), None, Some(""), None), "Putki, , ");
}

#[test]
fn search_index_changes() {
    let index = vec![
        row(1, "S1", "P1", "Putki"),
        row(1, "S1", "P2", "Kaapeli"),
        row(2, "S1", "P1", "Rör"),
        row(1, "S2", "P1", "Muu"),
    ];
    assert_eq!(search_change(&index, &row(1, "S1", "P1", "Putki")), SearchChange::Keep);
    assert_eq!(search_change(&index, &row(1, "S1", "P1", "Putki 2")), SearchChange::Update);
    assert_eq!(search_change(&index, &row(2, "S1", "P1", "Rör")), SearchChange::Update);
    assert_eq!(search_change(&index, &row(1, "S1", "P3", "Uusi")), SearchChange::Insert);
    assert_eq!(search_change(&index, &row(1, "S2", "P1", "Muu")), SearchChange::Keep);
    assert_eq!(search_change(&Vec::new(), &row(1, "S1", "P1", "Putki")), SearchChange::Insert);
    let rows = vec![row(1, "S1", "P2", "Kaapeli"), row(1, "S3", "P1", "x"), row(3, "S2", "P1", "Muu")];
    assert_eq!(
        search_changes(&index, &rows),
        vec![SearchChange::Keep, SearchChange::Insert, SearchChange::Update]
    );
}

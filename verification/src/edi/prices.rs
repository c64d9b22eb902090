//! Price entries: one line of a price list decoded into a price record.

use vstd::prelude::*;
use vstd::string::*;
use crate::config::{find_seller, Seller, seller_name_of};
use crate::edi::{
    append_texts, check_row_marker, date_of, EdiDate, EdiLine, failure_in, field, field_at,
    file_seller, first_failure, fits, is_split, lemma_all_pass, lemma_check, line_role,
    line_warnings, LineKind, malformed_date, missing_record, missing_record_error, optional_text,
    optional_text_of, read_file_seller, refused_line, refused_line_warning, required_text,
    required_text_failure, row_marker_failure, split_fields, stock_flag, stock_flag_of, total_width,
    truncated_at, weeks, weeks_of,
};
use crate::edi::products::holds_decimal;
use crate::error::{EdiError, Failure};
use crate::number::{
    bad_integer, bad_integer_error, decode_decimal, decode_optional_decimal, integer_of,
    optional_decimal, PackedDecimal, parse_i64, required_decimal,
};
use crate::order::{sorted_distinct, strictly_sorted};
use crate::snapshot::{Catalog, Filed, overlay, touches};
use crate::utils::{Category, category_of, invalid_category};

verus! {

/// The length of a price entry line.
pub const SEQ_PRICE_REQLEN: usize = 100;

/// The field widths of a price entry line.
pub const EXPL_SEQ_PRICE: [usize; 19] = [1, 1, 9, 2, 9, 8, 6, 3, 4, 9, 5, 9, 5, 9, 5, 3, 9, 1, 2];

/// The widths of a price entry add up to its documented length.
pub proof fn lemma_price_widths()
    ensures
        total_width(EXPL_SEQ_PRICE@) == SEQ_PRICE_REQLEN,
{
    reveal_with_fuel(crate::edi::offset_of, 20);
}

/// The price of a product as one line of a price list states it.
#[derive(Debug, Clone, PartialEq, Eq)]
pub struct Price {
    pub category: Category,
    pub identifier: String,
    pub price_group: String,
    pub price: PackedDecimal,
    pub date: EdiDate,
    pub discount_group: String,
    pub unit: String,
    pub units_incl: i64,
    pub packaging_1: Option<PackedDecimal>,
    pub packaging_1_discount: Option<PackedDecimal>,
    pub packaging_2: Option<PackedDecimal>,
    pub packaging_2_discount: Option<PackedDecimal>,
    pub packaging_3: Option<PackedDecimal>,
    pub packaging_3_discount: Option<PackedDecimal>,
    pub usage_unit: Option<String>,
    pub usables_in_unit: PackedDecimal,
    pub stock_item: Option<bool>,
    pub delivery_in_weeks: Option<i32>,
}

/// How many base units a price covers, as its field says: the number in
/// the field when it is positive, else zero.
pub open spec fn units_of(value: Seq<char>) -> Result<int, Failure> {
    match integer_of(value, i64::MIN as int, i64::MAX as int) {
        Ok(v) => if v > 0 {
            Ok(v)
        } else {
            Ok(0)
        },
        Err(fault) => Err(bad_integer(value, fault)),
    }
}

/// Reads the count of base units that a price covers.
pub fn units(value: &str) -> (r: Result<i64, EdiError>)
    ensures
        match r {
            Ok(v) => units_of(value@) == Ok::<int, Failure>(v as int),
            Err(e) => units_of(value@) == Err::<int, Failure>(e@),
        },
{
    match parse_i64(value) {
        Ok(v) => if v > 0 {
            Ok(v)
        } else {
            Ok(0)
        },
        Err(fault) => Err(bad_integer_error(value, fault)),
    }
}

/// Why field `i` of a price line is refused, if it is. The last field may
/// be missing altogether.
pub open spec fn price_failure_at(line: Seq<char>, i: int) -> Option<Failure> {
    let value = field_at(line, EXPL_SEQ_PRICE@, i);
    if !fits(line, EXPL_SEQ_PRICE@, i) {
        if i == 18 {
            None
        } else {
            Some(truncated_at(line, EXPL_SEQ_PRICE@, i))
        }
    } else if i == 0 {
        row_marker_failure(value)
    } else if i == 1 {
        if category_of(value) is None {
            Some(invalid_category(value))
        } else {
            None
        }
    } else if i == 2 {
        required_text_failure(value, "Product identifier in price is an empty string."@)
    } else if i == 3 {
        required_text_failure(value, "Price group is an empty string."@)
    } else if i == 4 {
        failure_in(required_decimal(value, 7))
    } else if i == 5 {
        if date_of(value) is None {
            Some(malformed_date())
        } else {
            None
        }
    } else if i == 6 {
        required_text_failure(value, "Product discount group in price is an empty string."@)
    } else if i == 7 {
        required_text_failure(value, "Price unit is an empty string."@)
    } else if i == 8 {
        failure_in(units_of(value))
    } else if i == 9 || i == 11 || i == 13 {
        failure_in(optional_decimal(value, 7))
    } else if i == 10 || i == 12 || i == 14 {
        failure_in(optional_decimal(value, 3))
    } else if i == 16 {
        failure_in(required_decimal(value, 5))
    } else if i == 18 {
        failure_in(weeks_of(value, "00"@))
    } else {
        None
    }
}

/// The checks of a price line, field by field.
pub open spec fn price_checks(line: Seq<char>) -> spec_fn(int) -> Option<Failure> {
    |i: int| price_failure_at(line, i)
}

/// Why a price line is refused, if it is: its fields are read from the
/// left, and the first one that is refused decides.
pub open spec fn price_failure(line: Seq<char>) -> Option<Failure> {
    first_failure(price_checks(line), 19)
}

/// The warning of a price line that ends before its last field.
pub open spec fn missing_delivery() -> Seq<char> {
    "Optional last value in price catalog ignored. Should be '00' for empty."@
}

/// The warnings that a price line raises when it is accepted.
pub open spec fn price_warnings(line: Seq<char>) -> Seq<Seq<char>> {
    if fits(line, EXPL_SEQ_PRICE@, 18) {
        seq![]
    } else {
        seq![missing_delivery()]
    }
}

impl Price {
    /// Whether the record holds, attribute by attribute, what the fields
    /// of `line` say.
    pub open spec fn decodes(&self, line: Seq<char>) -> bool {
        &&& self.decodes_identity(line)
        &&& self.decodes_packaging(line)
        &&& self.decodes_logistics(line)
    }

    /// Whether the record holds what fields 1 to 8 of `line` say: product,
    /// price, date, groups and unit.
    pub open spec fn decodes_identity(&self, line: Seq<char>) -> bool {
        let w = EXPL_SEQ_PRICE@;
        &&& category_of(field_at(line, w, 1)) == Some(self.category)
        &&& self.identifier@ == field_at(line, w, 2)
        &&& self.price_group@ == field_at(line, w, 3)
        &&& required_decimal(field_at(line, w, 4), 7) == Ok::<(Seq<char>, Seq<char>), Failure>(
            self.price@,
        )
        &&& self.price.wf()
        &&& date_of(field_at(line, w, 5)) == Some(self.date@)
        &&& self.discount_group@ == field_at(line, w, 6)
        &&& self.unit@ == field_at(line, w, 7)
        &&& units_of(field_at(line, w, 8)) == Ok::<int, Failure>(self.units_incl as int)
    }

    /// Whether the record holds what fields 9 to 14 of `line` say: the
    /// three packaging tiers.
    pub open spec fn decodes_packaging(&self, line: Seq<char>) -> bool {
        let w = EXPL_SEQ_PRICE@;
        &&& holds_decimal(self.packaging_1, field_at(line, w, 9), 7)
        &&& holds_decimal(self.packaging_1_discount, field_at(line, w, 10), 3)
        &&& holds_decimal(self.packaging_2, field_at(line, w, 11), 7)
        &&& holds_decimal(self.packaging_2_discount, field_at(line, w, 12), 3)
        &&& holds_decimal(self.packaging_3, field_at(line, w, 13), 7)
        &&& holds_decimal(self.packaging_3_discount, field_at(line, w, 14), 3)
    }

    /// Whether the record holds what fields 15 to 18 of `line` say: usage
    /// unit, stock flag and delivery time. A line without its last field
    /// states no delivery time.
    pub open spec fn decodes_logistics(&self, line: Seq<char>) -> bool {
        let w = EXPL_SEQ_PRICE@;
        &&& self.usage_unit.deep_view() == optional_text_of(field_at(line, w, 15))
        &&& required_decimal(field_at(line, w, 16), 5) == Ok::<(Seq<char>, Seq<char>), Failure>(
            self.usables_in_unit@,
        )
        &&& self.usables_in_unit.wf()
        &&& self.stock_item == stock_flag_of(field_at(line, w, 17))
        &&& if fits(line, w, 18) {
            weeks_of(field_at(line, w, 18), "00"@) == Ok::<Option<int>, Failure>(
                match self.delivery_in_weeks {
                    Some(v) => Some(v as int),
                    None => None,
                },
            )
        } else {
            self.delivery_in_weeks is None
        }
    }

    /// A price that no line has filled yet.
    pub fn new() -> (p: Self)
        ensures
            p.category == Category::Unset,
            p.identifier@.len() == 0,
            p.price_group@.len() == 0,
            p.discount_group@.len() == 0,
            p.unit@.len() == 0,
            p.units_incl == 0,
            p.price@ == ("0"@, "0"@),
            p.usables_in_unit@ == ("0"@, "0"@),
            p.date@ == (Seq::<char>::empty(), Seq::<char>::empty(), Seq::<char>::empty()),
            p.packaging_1 is None && p.packaging_1_discount is None,
            p.packaging_2 is None && p.packaging_2_discount is None,
            p.packaging_3 is None && p.packaging_3_discount is None,
            p.usage_unit is None && p.stock_item is None && p.delivery_in_weeks is None,
    {
        Self {
            category: Category::Unset,
            identifier: String::new(),
            price_group: String::new(),
            price: PackedDecimal { whole: "0".to_owned(), fraction: "0".to_owned() },
            date: EdiDate::new(),
            discount_group: String::new(),
            unit: String::new(),
            units_incl: 0,
            packaging_1: None,
            packaging_1_discount: None,
            packaging_2: None,
            packaging_2_discount: None,
            packaging_3: None,
            packaging_3_discount: None,
            usage_unit: None,
            usables_in_unit: PackedDecimal { whole: "0".to_owned(), fraction: "0".to_owned() },
            stock_item: None,
            delivery_in_weeks: None,
        }
    }

    /// Decodes fields 0 to 8 of a price line into the record.
    fn read_identity(&mut self, fields: &Vec<String>, text: &str) -> (r: Result<(), EdiError>)
        requires
            is_split(fields.deep_view(), text@, EXPL_SEQ_PRICE@),
        ensures
            match r {
                Ok(_) => {
                    &&& first_failure(price_checks(text@), 9) is None
                    &&& final(self).decodes_identity(text@)
                },
                Err(e) => price_failure(text@) == Some(e@),
            },
    {
        let ghost at = price_checks(text@);
        proof {
            lemma_check(at, 0, 19);
        }
        check_row_marker(field(fields, 0, text, &EXPL_SEQ_PRICE)?)?;
        proof {
            lemma_check(at, 1, 19);
        }
        self.category = Category::from_edi_str(field(fields, 1, text, &EXPL_SEQ_PRICE)?)?;
        proof {
            lemma_check(at, 2, 19);
        }
        self.identifier = required_text(
            field(fields, 2, text, &EXPL_SEQ_PRICE)?,
            "Product identifier in price is an empty string.",
        )?;
        proof {
            lemma_check(at, 3, 19);
        }
        self.price_group = required_text(
            field(fields, 3, text, &EXPL_SEQ_PRICE)?,
            "Price group is an empty string.",
        )?;
        proof {
            lemma_check(at, 4, 19);
        }
        self.price = decode_decimal(field(fields, 4, text, &EXPL_SEQ_PRICE)?, 7)?;
        proof {
            lemma_check(at, 5, 19);
        }
        self.date = EdiDate::from_string(field(fields, 5, text, &EXPL_SEQ_PRICE)?.to_owned())?;
        proof {
            lemma_check(at, 6, 19);
        }
        self.discount_group = required_text(
            field(fields, 6, text, &EXPL_SEQ_PRICE)?,
            "Product discount group in price is an empty string.",
        )?;
        proof {
            lemma_check(at, 7, 19);
        }
        self.unit = required_text(
            field(fields, 7, text, &EXPL_SEQ_PRICE)?,
            "Price unit is an empty string.",
        )?;
        proof {
            lemma_check(at, 8, 19);
        }
        self.units_incl = units(field(fields, 8, text, &EXPL_SEQ_PRICE)?)?;
        Ok(())
    }

    /// Decodes fields 9 to 14 of a price line into the record.
    fn read_packaging(&mut self, fields: &Vec<String>, text: &str) -> (r: Result<(), EdiError>)
        requires
            is_split(fields.deep_view(), text@, EXPL_SEQ_PRICE@),
            first_failure(price_checks(text@), 9) is None,
        ensures
            match r {
                Ok(_) => {
                    &&& first_failure(price_checks(text@), 15) is None
                    &&& final(self).decodes_packaging(text@)
                    &&& old(self).decodes_identity(text@) ==> final(self).decodes_identity(text@)
                },
                Err(e) => price_failure(text@) == Some(e@),
            },
    {
        let ghost at = price_checks(text@);
        proof {
            lemma_all_pass(at, 8, 9);
            lemma_check(at, 9, 19);
        }
        self.packaging_1 = decode_optional_decimal(field(fields, 9, text, &EXPL_SEQ_PRICE)?, 7)?;
        proof {
            lemma_check(at, 10, 19);
        }
        self.packaging_1_discount = decode_optional_decimal(
            field(fields, 10, text, &EXPL_SEQ_PRICE)?,
            3,
        )?;
        proof {
            lemma_check(at, 11, 19);
        }
        self.packaging_2 = decode_optional_decimal(field(fields, 11, text, &EXPL_SEQ_PRICE)?, 7)?;
        proof {
            lemma_check(at, 12, 19);
        }
        self.packaging_2_discount = decode_optional_decimal(
            field(fields, 12, text, &EXPL_SEQ_PRICE)?,
            3,
        )?;
        proof {
            lemma_check(at, 13, 19);
        }
        self.packaging_3 = decode_optional_decimal(field(fields, 13, text, &EXPL_SEQ_PRICE)?, 7)?;
        proof {
            lemma_check(at, 14, 19);
        }
        self.packaging_3_discount = decode_optional_decimal(
            field(fields, 14, text, &EXPL_SEQ_PRICE)?,
            3,
        )?;
        Ok(())
    }

    /// Decodes fields 15 to 18 of a price line into the record.
    fn read_logistics(&mut self, fields: &Vec<String>, text: &str) -> (r: Result<
        Vec<String>,
        EdiError,
    >)
        requires
            is_split(fields.deep_view(), text@, EXPL_SEQ_PRICE@),
            first_failure(price_checks(text@), 15) is None,
        ensures
            match r {
                Ok(warnings) => {
                    &&& price_failure(text@) is None
                    &&& final(self).decodes_logistics(text@)
                    &&& warnings.deep_view() == price_warnings(text@)
                    &&& old(self).decodes_identity(text@) ==> final(self).decodes_identity(text@)
                    &&& old(self).decodes_packaging(text@) ==> final(self).decodes_packaging(text@)
                },
                Err(e) => price_failure(text@) == Some(e@),
            },
    {
        let ghost at = price_checks(text@);
        let mut warnings: Vec<String> = Vec::new();
        proof {
            lemma_all_pass(at, 14, 15);
            lemma_check(at, 15, 19);
        }
        self.usage_unit = optional_text(field(fields, 15, text, &EXPL_SEQ_PRICE)?);
        proof {
            lemma_check(at, 16, 19);
        }
        self.usables_in_unit = decode_decimal(field(fields, 16, text, &EXPL_SEQ_PRICE)?, 5)?;
        proof {
            lemma_check(at, 17, 19);
        }
        self.stock_item = stock_flag(field(fields, 17, text, &EXPL_SEQ_PRICE)?);
        proof {
            reveal_strlit("00");
            lemma_check(at, 18, 19);
        }
        match field(fields, 18, text, &EXPL_SEQ_PRICE) {
            Ok(value) => {
                self.delivery_in_weeks = weeks(value, "00")?;
                proof {
                    assert(warnings.deep_view() =~= price_warnings(text@));
                }
            },
            Err(_) => {
                self.delivery_in_weeks = None;
                warnings.push(
                    "Optional last value in price catalog ignored. Should be '00' for empty.".to_owned(),
                );
                proof {
                    assert(warnings.deep_view() =~= price_warnings(text@));
                }
            },
        }
        Ok(warnings)
    }

    /// Decodes a price entry line. The warnings are those of an accepted
    /// line.
    pub fn from_line(line: String) -> (r: Result<(Self, Vec<String>), EdiError>)
        ensures
            match r {
                Ok((p, warnings)) => {
                    &&& price_failure(line@) is None
                    &&& p.decodes(line@)
                    &&& warnings.deep_view() == price_warnings(line@)
                },
                Err(e) => price_failure(line@) == Some(e@),
            },
    {
        let text = line.as_str();
        let fields = split_fields(text, &EXPL_SEQ_PRICE);
        let mut price = Self::new();
        price.read_identity(&fields, text)?;
        price.read_packaging(&fields, text)?;
        let warnings = price.read_logistics(&fields, text)?;
        Ok((price, warnings))
    }
}

impl Filed for Price {
    open spec fn shelf_of(&self) -> Category {
        self.category
    }

    open spec fn key_of(&self) -> Seq<char> {
        self.identifier@
    }

    fn shelf(&self) -> Category {
        self.category
    }

    fn key(&self) -> String {
        self.identifier.clone()
    }
}

/// The warnings that line `i` of a price file raises: those of its
/// length, then those of the price it decodes to, or the one of an entry
/// that does not decode.
pub open spec fn price_line_notes(line: Seq<char>, i: nat) -> Seq<Seq<char>> {
    line_warnings(line, i, SEQ_PRICE_REQLEN as nat) + (match line_role(
        line,
        i,
        SEQ_PRICE_REQLEN as nat,
    ) {
        Some((LineKind::Entry, text)) => match price_failure(text) {
            Some(f) => seq![refused_line("price"@, f, i)],
            None => price_warnings(text),
        },
        _ => seq![],
    })
}

/// The warnings of the first `n` lines of a price file, in the order in
/// which they arise.
pub open spec fn price_notes(lines: Seq<Seq<char>>, n: int) -> Seq<Seq<char>>
    decreases n,
{
    if n <= 0 {
        seq![]
    } else {
        price_notes(lines, n - 1) + price_line_notes(lines[n - 1], (n - 1) as nat)
    }
}

/// The entry lines among the first `n` lines of a price file that decode
/// as prices, as they are decoded: in order, and without the trailing
/// white space of a line that was too long with it.
pub open spec fn accepted_prices(lines: Seq<Seq<char>>, n: int) -> Seq<Seq<char>>
    decreases n,
{
    if n <= 0 {
        seq![]
    } else {
        let before = accepted_prices(lines, n - 1);
        match line_role(lines[n - 1], (n - 1) as nat, SEQ_PRICE_REQLEN as nat) {
            Some((LineKind::Entry, text)) => if price_failure(text) is None {
                before.push(text)
            } else {
                before
            },
            _ => before,
        }
    }
}

/// Whether `records` are the prices that the lines `texts` decode to, one
/// for one.
pub open spec fn prices_decoded(records: Seq<Price>, texts: Seq<Seq<char>>) -> bool {
    &&& records.len() == texts.len()
    &&& forall|k: int| 0 <= k < records.len() ==> (#[trigger] records[k]).decodes(texts[k])
}

/// What a pass over a price file yields.
pub struct PriceImport {
    /// The home of the seller, as path components below the root.
    pub supplier_dir: Vec<String>,
    /// The identifier of the seller.
    pub seller_id: String,
    /// The name of the seller, when the configuration knows the seller.
    pub seller_name: Option<String>,
    /// The seller's prices after the pass, by category.
    pub catalog: Catalog<Price>,
    /// The warnings of the pass, sorted, each once.
    pub warnings: Vec<String>,
}

/// Decodes the entry lines of a price file: the prices of the lines that
/// are accepted, in order, and the warnings of all lines, in order.
fn read_price_lines(lines: &Vec<String>) -> (r: (Vec<Price>, Vec<String>))
    ensures
        prices_decoded(r.0@, accepted_prices(lines.deep_view(), lines.len() as int)),
        r.1.deep_view() == price_notes(lines.deep_view(), lines.len() as int),
{
    let ghost dv = lines.deep_view();
    let mut prices: Vec<Price> = Vec::new();
    let mut raw: Vec<String> = Vec::new();
    let mut i: usize = 0;
    proof {
        assert(raw.deep_view() =~= price_notes(dv, 0));
    }
    while i < lines.len()
        invariant
            i <= lines.len(),
            dv == lines.deep_view(),
            raw.deep_view() == price_notes(dv, i as int),
            prices_decoded(prices@, accepted_prices(dv, i as int)),
        decreases lines.len() - i,
    {
        proof {
            assert(dv[i as int] == lines@[i as int]@);
        }
        let ghost notes_before = raw.deep_view();
        let ghost line_notes = price_line_notes(dv[i as int], i as nat);
        let (line, length_notes) = EdiLine::line_role_of(lines[i].clone(), i, SEQ_PRICE_REQLEN);
        append_texts(&mut raw, length_notes);
        match line {
            Some(EdiLine::Entry(text)) => {
                match Price::from_line(text) {
                    Ok((price, notes)) => {
                        append_texts(&mut raw, notes);
                        proof {
                            assert(raw.deep_view() =~= notes_before + line_notes);
                        }
                        prices.push(price);
                    },
                    Err(e) => {
                        let ghost so_far = raw.deep_view();
                        raw.push(refused_line_warning("price", &e, i));
                        proof {
                            assert(raw.deep_view() =~= so_far.push(
                                refused_line("price"@, e@, i as nat),
                            ));
                            assert(raw.deep_view() =~= notes_before + line_notes);
                        }
                    },
                }
            },
            _ => {
                proof {
                    assert(raw.deep_view() =~= notes_before + line_notes);
                }
            },
        }
        i = i + 1;
    }
    (prices, raw)
}

/// Reads a price file and files its prices over the seller's catalogue
/// `existing`. The lines are taken by position: the first two are
/// headers, the others entries; an entry that does not decode is passed
/// over with a warning. Only a seller header that does not decode fails
/// the pass.
pub fn prices_import(lines: &Vec<String>, sellers: &Vec<Seller>, existing: Catalog<Price>) -> (r:
    Result<PriceImport, EdiError>)
    ensures
        match r {
            Ok(batch) => {
                &&& file_seller(lines.deep_view()) == Ok::<(Seq<Seq<char>>, Seq<char>), Failure>(
                    (batch.supplier_dir.deep_view(), batch.seller_id@),
                )
                &&& batch.seller_name.deep_view() == seller_name_of(sellers@, batch.seller_id@)
                &&& strictly_sorted(batch.warnings.deep_view())
                &&& forall|x: Seq<char>|
                    batch.warnings.deep_view().contains(x) <==> price_notes(
                        lines.deep_view(),
                        lines.len() as int,
                    ).contains(x)
                &&& exists|records: Seq<Price>|
                    {
                        &&& #[trigger] prices_decoded(
                            records,
                            accepted_prices(lines.deep_view(), lines.len() as int),
                        )
                        &&& forall|c: Category|
                            #[trigger] batch.catalog.records(c) == overlay(
                                existing.records(c),
                                records,
                                c,
                            )
                        &&& forall|c: Category|
                            #[trigger] batch.catalog.shelf(c) is Some <==> existing.shelf(c) is Some
                                || touches(records, c)
                    }
            },
            Err(e) => file_seller(lines.deep_view()) == Err::<(Seq<Seq<char>>, Seq<char>), Failure>(
                e@,
            ),
        },
{
    let (supplier_dir, seller_id) = read_file_seller(lines)?;
    let seller_name = match find_seller(sellers, seller_id.as_str()) {
        Some(k) => Some(sellers[k].name.clone()),
        None => None,
    };
    let (prices, raw) = read_price_lines(lines);
    let mut catalog = existing;
    let ghost records = prices@;
    catalog.file_all(prices);
    let warnings = sorted_distinct(&raw);
    proof {
        assert(prices_decoded(records, accepted_prices(lines.deep_view(), lines.len() as int)));
    }
    Ok(PriceImport { supplier_dir, seller_id, seller_name, catalog, warnings })
}

/// Whether a file is a price file: whether its first line after the
/// two header lines decodes as a price. A file without such a line is
/// an error.
pub open spec fn price_file(lines: Seq<Seq<char>>) -> Result<bool, Failure> {
    if lines.len() < 3 {
        Err(missing_record())
    } else {
        Ok(price_failure(lines[2]) is None)
    }
}

/// Tells whether the lines of a file are those of a price file.
pub fn is_price_file(lines: &Vec<String>) -> (r: Result<bool, EdiError>)
    ensures
        match r {
            Ok(b) => price_file(lines.deep_view()) == Ok::<bool, Failure>(b),
            Err(e) => price_file(lines.deep_view()) == Err::<bool, Failure>(e@),
        },
{
    if lines.len() < 3 {
        return Err(missing_record_error());
    }
    proof {
        assert(lines.deep_view()[2] == lines@[2]@);
    }
    Ok(Price::from_line(lines[2].clone()).is_ok())
}

/// A packaging price or discount that its field writes as zero is stored
/// as absent: no decoded price holds one that is zero.
pub proof fn lemma_zero_is_absent(price: Price, line: Seq<char>)
    requires
        price.decodes(line),
    ensures
        price.packaging_1 matches Some(d) ==> d.scaled() != 0,
        price.packaging_1_discount matches Some(d) ==> d.scaled() != 0,
        price.packaging_2 matches Some(d) ==> d.scaled() != 0,
        price.packaging_2_discount matches Some(d) ==> d.scaled() != 0,
        price.packaging_3 matches Some(d) ==> d.scaled() != 0,
        price.packaging_3_discount matches Some(d) ==> d.scaled() != 0,
{
}

} // verus!

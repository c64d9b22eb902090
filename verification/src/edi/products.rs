//! Product entries: one line of a product catalogue decoded into a
//! product record.

use vstd::prelude::*;
use vstd::string::*;
use crate::config::{find_seller, Seller, seller_ids, seller_name_of};
use crate::edi::{
    append_texts, check_row_marker, date_of, EdiDate, EdiLine, failure_in, field, field_at,
    file_seller, first_failure, fits, is_split, lemma_all_pass, lemma_check, lemma_none_fails,
    line_role, line_warnings, LineKind, malformed_date, missing_record, missing_record_error,
    optional_count, optional_count_of, optional_text, optional_text_of, read_file_seller,
    required_text, required_text_failure, row_marker_failure, split_fields, stock_flag,
    stock_flag_of, total_width, truncated_at, weeks, weeks_of,
};
use crate::edi::header::party_created;
use crate::error::{EdiError, EdiErrorKind, Failure};
use crate::number::{
    decode_decimal, decode_optional_decimal, optional_decimal, optional_decimal_agrees,
    PackedDecimal, required_decimal,
};
use crate::order::{sorted_distinct, strictly_sorted};
use crate::snapshot::{Catalog, Filed, overlay, touches};
use crate::text::lemma_trimmed_is_tight;
use crate::utils::{
    Category, category_of, invalid_category, invalid_language, invalid_operation, Lang, lang_name,
    lang_of, Operation, operation_of,
};

verus! {

/// The length of a product entry line.
pub const SEQ_PROD_REQLEN: usize = 232;

/// The field widths of a product entry line.
pub const EXPL_SEQ_PRODUCT: [usize; 27] = [
    1, 1, 9, 1, 3, 8, 35, 35, 20, 7, 6, 3, 7, 7, 9, 9, 5, 9, 5, 9, 5, 3, 2, 1, 20, 3, 9,
];

/// The widths of a product entry add up to its documented length.
pub proof fn lemma_product_widths()
    ensures
        total_width(EXPL_SEQ_PRODUCT@) == SEQ_PROD_REQLEN,
{
    reveal_with_fuel(crate::edi::offset_of, 28);
}

/// A product as one catalogue line describes it, in one language.
#[derive(Debug, Clone, PartialEq, Eq)]
pub struct Product {
    pub category: Category,
    pub identifier: String,
    pub operation: Operation,
    pub lang: Lang,
    pub date: EdiDate,
    pub name: String,
    pub description: String,
    pub search_tags: Option<String>,
    pub search_code: Option<String>,
    pub discount_group: Option<String>,
    pub unit: String,
    pub unit_weight: Option<PackedDecimal>,
    pub unit_volume: Option<PackedDecimal>,
    pub typical_packaging: Option<i64>,
    pub packaging_1: Option<PackedDecimal>,
    pub packaging_1_discount: Option<PackedDecimal>,
    pub packaging_2: Option<PackedDecimal>,
    pub packaging_2_discount: Option<PackedDecimal>,
    pub packaging_3: Option<PackedDecimal>,
    pub packaging_3_discount: Option<PackedDecimal>,
    pub tax_class: Option<String>,
    pub delivery_in_weeks: Option<i32>,
    pub stock_item: Option<bool>,
    pub ean_code: Option<String>,
    pub usage_unit: Option<String>,
    pub usables_in_unit: PackedDecimal,
}

/// The error of a product line with an operation code outside the known
/// set.
pub open spec fn bad_operation(identifier: Seq<char>, found: Seq<char>) -> Failure {
    Failure {
        kind: EdiErrorKind::InvalidOperation,
        text: "Product with ID: "@ + identifier + " fails for bad operation: "@
            + invalid_operation(found).text,
    }
}

/// The error of a product line with a language name outside the known set.
pub open spec fn bad_language(found: Seq<char>) -> Failure {
    Failure {
        kind: EdiErrorKind::InvalidLanguage,
        text: "Product has invalid language "@ + found + ": "@ + invalid_language(found).text,
    }
}

/// The error of a product line in another language than the one asked
/// for.
pub open spec fn filtered_out(filter: Lang, found: Lang) -> Failure {
    Failure {
        kind: EdiErrorKind::LanguageMismatch,
        text: "Language filter set to '"@ + lang_name(filter) + "' and product lang is '"@
            + lang_name(found) + "'"@,
    }
}

/// Why the language field of a product line is refused, if it is: it must
/// name a language, and the one of the filter where a filter is set.
pub open spec fn language_failure(value: Seq<char>, filter: Option<Lang>) -> Option<Failure> {
    match lang_of(value) {
        None => Some(bad_language(value)),
        Some(l) => match filter {
            Some(f) => if f != l {
                Some(filtered_out(f, l))
            } else {
                None
            },
            None => None,
        },
    }
}

/// Why field `i` of a product line is refused, if it is.
pub open spec fn product_failure_at(line: Seq<char>, filter: Option<Lang>, i: int) -> Option<
    Failure,
> {
    let value = field_at(line, EXPL_SEQ_PRODUCT@, i);
    if !fits(line, EXPL_SEQ_PRODUCT@, i) {
        Some(truncated_at(line, EXPL_SEQ_PRODUCT@, i))
    } else if i == 0 {
        row_marker_failure(value)
    } else if i == 1 {
        if category_of(value) is None {
            Some(invalid_category(value))
        } else {
            None
        }
    } else if i == 2 {
        required_text_failure(value, "Product identifier is an empty string"@)
    } else if i == 3 {
        if operation_of(value) is None {
            Some(bad_operation(field_at(line, EXPL_SEQ_PRODUCT@, 2), value))
        } else {
            None
        }
    } else if i == 4 {
        language_failure(value, filter)
    } else if i == 5 {
        if date_of(value) is None {
            Some(malformed_date())
        } else {
            None
        }
    } else if i == 6 {
        required_text_failure(value, "Product name is an empty string"@)
    } else if i == 11 {
        required_text_failure(value, "Product unit is an empty string"@)
    } else if i == 12 || i == 13 {
        failure_in(optional_decimal(value, 4))
    } else if i == 14 {
        failure_in(optional_count_of(value))
    } else if i == 15 || i == 17 || i == 19 {
        failure_in(optional_decimal(value, 7))
    } else if i == 16 || i == 18 || i == 20 {
        failure_in(optional_decimal(value, 3))
    } else if i == 22 {
        failure_in(weeks_of(value, Seq::empty()))
    } else if i == 26 {
        failure_in(required_decimal(value, 5))
    } else {
        None
    }
}

/// The checks of a product line, field by field.
pub open spec fn product_checks(line: Seq<char>, filter: Option<Lang>) -> spec_fn(int) -> Option<
    Failure,
> {
    |i: int| product_failure_at(line, filter, i)
}

/// Why a product line is refused, if it is: its fields are read from the
/// left, and the first one that is refused decides.
pub open spec fn product_failure(line: Seq<char>, filter: Option<Lang>) -> Option<Failure> {
    first_failure(product_checks(line, filter), 27)
}

/// The warning of a product without description.
pub open spec fn no_description(identifier: Seq<char>) -> Seq<char> {
    "["@ + identifier + "]: Product description is an empty string"@
}

/// The warnings that a product line raises when it is accepted.
pub open spec fn product_warnings(line: Seq<char>) -> Seq<Seq<char>> {
    if field_at(line, EXPL_SEQ_PRODUCT@, 7).len() == 0 {
        seq![no_description(field_at(line, EXPL_SEQ_PRODUCT@, 2))]
    } else {
        seq![]
    }
}

/// Whether an optional number of the record is what its field holds.
pub open spec fn holds_decimal(d: Option<PackedDecimal>, value: Seq<char>, split: int) -> bool {
    optional_decimal_agrees(Ok(d), optional_decimal(value, split))
}

/// The language that a filter asks for, if one is set.
pub open spec fn filter_of(lang_filter: Option<&Lang>) -> Option<Lang> {
    match lang_filter {
        Some(l) => Some(*l),
        None => None,
    }
}

impl Product {
    /// Whether the record holds, attribute by attribute, what the fields
    /// of `line` say.
    pub open spec fn decodes(&self, line: Seq<char>) -> bool {
        &&& self.decodes_identity(line)
        &&& self.decodes_trade(line)
        &&& self.decodes_packaging(line)
        &&& self.decodes_logistics(line)
    }

    /// Whether the record holds what the first eight fields of `line`
    /// say: the identity and the texts of the product.
    pub open spec fn decodes_identity(&self, line: Seq<char>) -> bool {
        let w = EXPL_SEQ_PRODUCT@;
        &&& category_of(field_at(line, w, 1)) == Some(self.category)
        &&& self.identifier@ == field_at(line, w, 2)
        &&& operation_of(field_at(line, w, 3)) == Some(self.operation)
        &&& lang_of(field_at(line, w, 4)) == Some(self.lang)
        &&& date_of(field_at(line, w, 5)) == Some(self.date@)
        &&& self.name@ == field_at(line, w, 6)
        &&& self.description@ == field_at(line, w, 7)
    }

    /// Whether the record holds what fields 8 to 14 of `line` say: search
    /// keys, discount group, unit and its measures.
    pub open spec fn decodes_trade(&self, line: Seq<char>) -> bool {
        let w = EXPL_SEQ_PRODUCT@;
        &&& self.search_tags.deep_view() == optional_text_of(field_at(line, w, 8))
        &&& self.search_code.deep_view() == optional_text_of(field_at(line, w, 9))
        &&& self.discount_group.deep_view() == optional_text_of(field_at(line, w, 10))
        &&& self.unit@ == field_at(line, w, 11)
        &&& holds_decimal(self.unit_weight, field_at(line, w, 12), 4)
        &&& holds_decimal(self.unit_volume, field_at(line, w, 13), 4)
        &&& optional_count_of(field_at(line, w, 14)) == Ok::<Option<int>, Failure>(
            match self.typical_packaging {
                Some(v) => Some(v as int),
                None => None,
            },
        )
    }

    /// Whether the record holds what fields 15 to 20 of `line` say: the
    /// three packaging tiers.
    pub open spec fn decodes_packaging(&self, line: Seq<char>) -> bool {
        let w = EXPL_SEQ_PRODUCT@;
        &&& holds_decimal(self.packaging_1, field_at(line, w, 15), 7)
        &&& holds_decimal(self.packaging_1_discount, field_at(line, w, 16), 3)
        &&& holds_decimal(self.packaging_2, field_at(line, w, 17), 7)
        &&& holds_decimal(self.packaging_2_discount, field_at(line, w, 18), 3)
        &&& holds_decimal(self.packaging_3, field_at(line, w, 19), 7)
        &&& holds_decimal(self.packaging_3_discount, field_at(line, w, 20), 3)
    }

    /// Whether the record holds what fields 21 to 26 of `line` say: tax
    /// class, delivery, stock flag, EAN code and usage unit.
    pub open spec fn decodes_logistics(&self, line: Seq<char>) -> bool {
        let w = EXPL_SEQ_PRODUCT@;
        &&& self.tax_class.deep_view() == optional_text_of(field_at(line, w, 21))
        &&& weeks_of(field_at(line, w, 22), Seq::empty()) == Ok::<Option<int>, Failure>(
            match self.delivery_in_weeks {
                Some(v) => Some(v as int),
                None => None,
            },
        )
        &&& self.stock_item == stock_flag_of(field_at(line, w, 23))
        &&& self.ean_code.deep_view() == optional_text_of(field_at(line, w, 24))
        &&& self.usage_unit.deep_view() == optional_text_of(field_at(line, w, 25))
        &&& required_decimal(field_at(line, w, 26), 5) == Ok::<(Seq<char>, Seq<char>), Failure>(
            self.usables_in_unit@,
        )
        &&& self.usables_in_unit.wf()
    }

    /// A product that no line has filled yet.
    pub fn new() -> (p: Self)
        ensures
            p.category == Category::Unset,
            p.operation == Operation::Empty,
            p.lang == Lang::Fin,
            p.identifier@.len() == 0,
            p.name@.len() == 0,
            p.description@.len() == 0,
            p.unit@.len() == 0,
            p.date@ == (Seq::<char>::empty(), Seq::<char>::empty(), Seq::<char>::empty()),
            p.search_tags is None && p.search_code is None && p.discount_group is None,
            p.unit_weight is None && p.unit_volume is None && p.typical_packaging is None,
            p.packaging_1 is None && p.packaging_1_discount is None,
            p.packaging_2 is None && p.packaging_2_discount is None,
            p.packaging_3 is None && p.packaging_3_discount is None,
            p.tax_class is None && p.delivery_in_weeks is None && p.stock_item is None,
            p.ean_code is None && p.usage_unit is None,
            p.usables_in_unit@ == ("0"@, "0"@),
    {
        Self {
            category: Category::Unset,
            identifier: String::new(),
            operation: Operation::Empty,
            lang: Lang::Fin,
            date: EdiDate::new(),
            name: String::new(),
            description: String::new(),
            search_tags: None,
            search_code: None,
            discount_group: None,
            unit: String::new(),
            unit_weight: None,
            unit_volume: None,
            typical_packaging: None,
            packaging_1: None,
            packaging_1_discount: None,
            packaging_2: None,
            packaging_2_discount: None,
            packaging_3: None,
            packaging_3_discount: None,
            tax_class: None,
            delivery_in_weeks: None,
            stock_item: None,
            ean_code: None,
            usage_unit: None,
            usables_in_unit: PackedDecimal { whole: "0".to_owned(), fraction: "0".to_owned() },
        }
    }

    /// Decodes the first eight fields of a product line into the record.
    fn read_identity(
        &mut self,
        fields: &Vec<String>,
        text: &str,
        lang_filter: Option<&Lang>,
    ) -> (r: Result<Vec<String>, EdiError>)
        requires
            is_split(fields.deep_view(), text@, EXPL_SEQ_PRODUCT@),
        ensures
            match r {
                Ok(warnings) => {
                    &&& first_failure(product_checks(text@, filter_of(lang_filter)), 8) is None
                    &&& final(self).decodes_identity(text@)
                    &&& warnings.deep_view() == product_warnings(text@)
                },
                Err(e) => product_failure(text@, filter_of(lang_filter)) == Some(e@),
            },
    {
        let ghost at = product_checks(text@, filter_of(lang_filter));
        let mut warnings: Vec<String> = Vec::new();
        proof {
            lemma_check(at, 0, 27);
        }
        check_row_marker(field(fields, 0, text, &EXPL_SEQ_PRODUCT)?)?;
        proof {
            lemma_check(at, 1, 27);
        }
        self.category = Category::from_edi_str(field(fields, 1, text, &EXPL_SEQ_PRODUCT)?)?;
        proof {
            lemma_check(at, 2, 27);
        }
        self.identifier = required_text(
            field(fields, 2, text, &EXPL_SEQ_PRODUCT)?,
            "Product identifier is an empty string",
        )?;
        proof {
            lemma_check(at, 3, 27);
        }
        self.operation = match Operation::from_str(field(fields, 3, text, &EXPL_SEQ_PRODUCT)?) {
            Ok(o) => o,
            Err(e) => {
                let mut m = "Product with ID: ".to_owned();
                m.append(self.identifier.as_str());
                m.append(" fails for bad operation: ");
                m.append(e.message.as_str());
                return Err(EdiError::new(EdiErrorKind::InvalidOperation, m));
            },
        };
        proof {
            lemma_check(at, 4, 27);
        }
        let lang_text = field(fields, 4, text, &EXPL_SEQ_PRODUCT)?;
        let lang = match Lang::from_name(lang_text) {
            Ok(l) => l,
            Err(e) => {
                let mut m = "Product has invalid language ".to_owned();
                m.append(lang_text);
                m.append(": ");
                m.append(e.message.as_str());
                return Err(EdiError::new(EdiErrorKind::InvalidLanguage, m));
            },
        };
        if let Some(f) = lang_filter {
            if *f != lang {
                let mut m = "Language filter set to '".to_owned();
                m.append(f.to_name());
                m.append("' and product lang is '");
                m.append(lang.to_name());
                m.append("'");
                return Err(EdiError::new(EdiErrorKind::LanguageMismatch, m));
            }
        }
        self.lang = lang;
        proof {
            lemma_check(at, 5, 27);
        }
        self.date = EdiDate::from_string(field(fields, 5, text, &EXPL_SEQ_PRODUCT)?.to_owned())?;
        proof {
            lemma_check(at, 6, 27);
        }
        self.name = required_text(
            field(fields, 6, text, &EXPL_SEQ_PRODUCT)?,
            "Product name is an empty string",
        )?;
        proof {
            lemma_check(at, 7, 27);
        }
        self.description = field(fields, 7, text, &EXPL_SEQ_PRODUCT)?.to_owned();
        if self.description.as_str().unicode_len() == 0 {
            let mut w = "[".to_owned();
            w.append(self.identifier.as_str());
            w.append("]: Product description is an empty string");
            warnings.push(w);
        }
        proof {
            assert(warnings.deep_view() =~= product_warnings(text@));
        }
        Ok(warnings)
    }

    /// Decodes fields 8 to 14 of a product line into the record.
    fn read_trade(
        &mut self,
        fields: &Vec<String>,
        text: &str,
        Ghost(filter): Ghost<Option<Lang>>,
    ) -> (r: Result<(), EdiError>)
        requires
            is_split(fields.deep_view(), text@, EXPL_SEQ_PRODUCT@),
            first_failure(product_checks(text@, filter), 8) is None,
        ensures
            match r {
                Ok(_) => {
                    &&& first_failure(product_checks(text@, filter), 15) is None
                    &&& final(self).decodes_trade(text@)
                    &&& old(self).decodes_identity(text@) ==> final(self).decodes_identity(text@)
                },
                Err(e) => product_failure(text@, filter) == Some(e@),
            },
    {
        let ghost at = product_checks(text@, filter);
        proof {
            lemma_all_pass(at, 7, 8);
            lemma_check(at, 8, 27);
        }
        self.search_tags = optional_text(field(fields, 8, text, &EXPL_SEQ_PRODUCT)?);
        proof {
            lemma_check(at, 9, 27);
        }
        self.search_code = optional_text(field(fields, 9, text, &EXPL_SEQ_PRODUCT)?);
        proof {
            lemma_check(at, 10, 27);
        }
        self.discount_group = optional_text(field(fields, 10, text, &EXPL_SEQ_PRODUCT)?);
        proof {
            lemma_check(at, 11, 27);
        }
        self.unit = required_text(
            field(fields, 11, text, &EXPL_SEQ_PRODUCT)?,
            "Product unit is an empty string",
        )?;
        proof {
            lemma_check(at, 12, 27);
        }
        self.unit_weight = decode_optional_decimal(
            field(fields, 12, text, &EXPL_SEQ_PRODUCT)?,
            4,
        )?;
        proof {
            lemma_check(at, 13, 27);
        }
        self.unit_volume = decode_optional_decimal(
            field(fields, 13, text, &EXPL_SEQ_PRODUCT)?,
            4,
        )?;
        proof {
            lemma_check(at, 14, 27);
        }
        self.typical_packaging = optional_count(field(fields, 14, text, &EXPL_SEQ_PRODUCT)?)?;
        Ok(())
    }

    /// Decodes fields 15 to 20 of a product line into the record.
    fn read_packaging(
        &mut self,
        fields: &Vec<String>,
        text: &str,
        Ghost(filter): Ghost<Option<Lang>>,
    ) -> (r: Result<(), EdiError>)
        requires
            is_split(fields.deep_view(), text@, EXPL_SEQ_PRODUCT@),
            first_failure(product_checks(text@, filter), 15) is None,
        ensures
            match r {
                Ok(_) => {
                    &&& first_failure(product_checks(text@, filter), 21) is None
                    &&& final(self).decodes_packaging(text@)
                    &&& old(self).decodes_identity(text@) ==> final(self).decodes_identity(text@)
                    &&& old(self).decodes_trade(text@) ==> final(self).decodes_trade(text@)
                },
                Err(e) => product_failure(text@, filter) == Some(e@),
            },
    {
        let ghost at = product_checks(text@, filter);
        proof {
            lemma_all_pass(at, 14, 15);
            lemma_check(at, 15, 27);
        }
        self.packaging_1 = decode_optional_decimal(
            field(fields, 15, text, &EXPL_SEQ_PRODUCT)?,
            7,
        )?;
        proof {
            lemma_check(at, 16, 27);
        }
        self.packaging_1_discount = decode_optional_decimal(
            field(fields, 16, text, &EXPL_SEQ_PRODUCT)?,
            3,
        )?;
        proof {
            lemma_check(at, 17, 27);
        }
        self.packaging_2 = decode_optional_decimal(
            field(fields, 17, text, &EXPL_SEQ_PRODUCT)?,
            7,
        )?;
        proof {
            lemma_check(at, 18, 27);
        }
        self.packaging_2_discount = decode_optional_decimal(
            field(fields, 18, text, &EXPL_SEQ_PRODUCT)?,
            3,
        )?;
        proof {
            lemma_check(at, 19, 27);
        }
        self.packaging_3 = decode_optional_decimal(
            field(fields, 19, text, &EXPL_SEQ_PRODUCT)?,
            7,
        )?;
        proof {
            lemma_check(at, 20, 27);
        }
        self.packaging_3_discount = decode_optional_decimal(
            field(fields, 20, text, &EXPL_SEQ_PRODUCT)?,
            3,
        )?;
        Ok(())
    }

    /// Decodes fields 21 to 26 of a product line into the record.
    fn read_logistics(
        &mut self,
        fields: &Vec<String>,
        text: &str,
        Ghost(filter): Ghost<Option<Lang>>,
    ) -> (r: Result<(), EdiError>)
        requires
            is_split(fields.deep_view(), text@, EXPL_SEQ_PRODUCT@),
            first_failure(product_checks(text@, filter), 21) is None,
        ensures
            match r {
                Ok(_) => {
                    &&& product_failure(text@, filter) is None
                    &&& final(self).decodes_logistics(text@)
                    &&& old(self).decodes_identity(text@) ==> final(self).decodes_identity(text@)
                    &&& old(self).decodes_trade(text@) ==> final(self).decodes_trade(text@)
                    &&& old(self).decodes_packaging(text@) ==> final(self).decodes_packaging(text@)
                },
                Err(e) => product_failure(text@, filter) == Some(e@),
            },
    {
        let ghost at = product_checks(text@, filter);
        proof {
            lemma_all_pass(at, 20, 21);
            lemma_check(at, 21, 27);
        }
        self.tax_class = optional_text(field(fields, 21, text, &EXPL_SEQ_PRODUCT)?);
        proof {
            reveal_strlit("");
            assert(""@ =~= Seq::<char>::empty());
            lemma_check(at, 22, 27);
        }
        self.delivery_in_weeks = weeks(field(fields, 22, text, &EXPL_SEQ_PRODUCT)?, "")?;
        proof {
            lemma_check(at, 23, 27);
        }
        self.stock_item = stock_flag(field(fields, 23, text, &EXPL_SEQ_PRODUCT)?);
        proof {
            lemma_check(at, 24, 27);
        }
        self.ean_code = optional_text(field(fields, 24, text, &EXPL_SEQ_PRODUCT)?);
        proof {
            lemma_check(at, 25, 27);
        }
        self.usage_unit = optional_text(field(fields, 25, text, &EXPL_SEQ_PRODUCT)?);
        proof {
            lemma_check(at, 26, 27);
        }
        self.usables_in_unit = decode_decimal(field(fields, 26, text, &EXPL_SEQ_PRODUCT)?, 5)?;
        Ok(())
    }

    /// Decodes a product entry line. With a language filter set, a line in
    /// another language is refused. The warnings are those of an accepted
    /// line.
    pub fn from_line(line: String, lang_filter: Option<&Lang>) -> (r: Result<
        (Self, Vec<String>),
        EdiError,
    >)
        ensures
            match r {
                Ok((p, warnings)) => {
                    &&& product_failure(line@, filter_of(lang_filter)) is None
                    &&& p.decodes(line@)
                    &&& warnings.deep_view() == product_warnings(line@)
                },
                Err(e) => product_failure(line@, filter_of(lang_filter)) == Some(e@),
            },
    {
        let text = line.as_str();
        let fields = split_fields(text, &EXPL_SEQ_PRODUCT);
        let ghost filter = filter_of(lang_filter);
        let mut product = Self::new();
        let warnings = product.read_identity(&fields, text, lang_filter)?;
        product.read_trade(&fields, text, Ghost(filter))?;
        product.read_packaging(&fields, text, Ghost(filter))?;
        product.read_logistics(&fields, text, Ghost(filter))?;
        Ok((product, warnings))
    }
}

impl Filed for Product {
    open spec fn shelf_of(&self) -> Category {
        self.category
    }

    open spec fn key_of(&self) -> Seq<char> {
        self.identifier@
    }

    fn shelf(&self) -> Category {
        self.category
    }

    fn key(&self) -> String {
        self.identifier.clone()
    }
}

/// The warning of a file whose seller the configuration does not know.
pub open spec fn unknown_seller(id: Seq<char>) -> Seq<char> {
    "Unable to find config for seller ID "@ + id + ", skipping seller..."@
}

/// The warning of an entry line that does not decode as a product.
pub open spec fn refused_product(cause: Failure) -> Seq<char> {
    "Product read: "@ + cause.text
}

/// The warnings that line `i` of a product file raises: those of its
/// length, then those of what it holds. `known` are the identifiers of the
/// configured sellers.
pub open spec fn product_line_notes(
    line: Seq<char>,
    i: nat,
    filter: Option<Lang>,
    known: Seq<Seq<char>>,
) -> Seq<Seq<char>> {
    line_warnings(line, i, SEQ_PROD_REQLEN as nat) + (match line_role(
        line,
        i,
        SEQ_PROD_REQLEN as nat,
    ) {
        Some((LineKind::Seller, text)) => match party_created(text) {
            Ok((_, id)) => if known.contains(id) {
                seq![]
            } else {
                seq![unknown_seller(id)]
            },
            Err(_) => seq![],
        },
        Some((LineKind::Entry, text)) => match product_failure(text, filter) {
            Some(f) => seq![refused_product(f)],
            None => product_warnings(text),
        },
        _ => seq![],
    })
}

/// The warnings of the first `n` lines of a product file, in the order in
/// which they arise.
pub open spec fn product_notes(
    lines: Seq<Seq<char>>,
    filter: Option<Lang>,
    known: Seq<Seq<char>>,
    n: int,
) -> Seq<Seq<char>>
    decreases n,
{
    if n <= 0 {
        seq![]
    } else {
        product_notes(lines, filter, known, n - 1) + product_line_notes(
            lines[n - 1],
            (n - 1) as nat,
            filter,
            known,
        )
    }
}

/// The entry lines among the first `n` lines of a product file that
/// decode as products, as they are decoded: in order, and without the
/// trailing white space of a line that was too long with it.
pub open spec fn accepted_products(lines: Seq<Seq<char>>, filter: Option<Lang>, n: int) -> Seq<
    Seq<char>,
>
    decreases n,
{
    if n <= 0 {
        seq![]
    } else {
        let before = accepted_products(lines, filter, n - 1);
        match line_role(lines[n - 1], (n - 1) as nat, SEQ_PROD_REQLEN as nat) {
            Some((LineKind::Entry, text)) => if product_failure(text, filter) is None {
                before.push(text)
            } else {
                before
            },
            _ => before,
        }
    }
}

/// Whether `records` are the products that the lines `texts` decode to,
/// one for one.
pub open spec fn products_decoded(records: Seq<Product>, texts: Seq<Seq<char>>) -> bool {
    &&& records.len() == texts.len()
    &&& forall|k: int| 0 <= k < records.len() ==> (#[trigger] records[k]).decodes(texts[k])
}

/// What one pass over a product file yields.
pub struct ProductImport {
    /// The home of the seller, as path components below the root.
    pub supplier_dir: Vec<String>,
    /// The identifier of the seller.
    pub seller_id: String,
    /// The name of the seller, when the configuration knows the seller.
    pub seller_name: Option<String>,
    /// The seller's products after the pass, by category.
    pub catalog: Catalog<Product>,
    /// The warnings of the pass, sorted, each once.
    pub warnings: Vec<String>,
}

/// Decodes the entry lines of a product file: the products of the lines
/// that are accepted, in order, and the warnings of all lines, in order.
/// `seller_known` says whether the configuration knows the seller that
/// the file names.
fn read_product_lines(
    lines: &Vec<String>,
    lang_filter: &Lang,
    seller_id: &str,
    seller_known: bool,
    Ghost(known): Ghost<Seq<Seq<char>>>,
) -> (r: (Vec<Product>, Vec<String>))
    requires
        file_seller(lines.deep_view()) is Ok,
        file_seller(lines.deep_view())->Ok_0.1 == seller_id@,
        seller_known == known.contains(seller_id@),
    ensures
        products_decoded(
            r.0@,
            accepted_products(lines.deep_view(), Some(*lang_filter), lines.len() as int),
        ),
        r.1.deep_view() == product_notes(
            lines.deep_view(),
            Some(*lang_filter),
            known,
            lines.len() as int,
        ),
{
    let ghost dv = lines.deep_view();
    let ghost filter = Some(*lang_filter);
    let mut products: Vec<Product> = Vec::new();
    let mut raw: Vec<String> = Vec::new();
    let mut i: usize = 0;
    proof {
        assert(raw.deep_view() =~= product_notes(dv, filter, known, 0));
    }
    while i < lines.len()
        invariant
            i <= lines.len(),
            dv == lines.deep_view(),
            filter == Some(*lang_filter),
            file_seller(dv) is Ok,
            file_seller(dv)->Ok_0.1 == seller_id@,
            seller_known == known.contains(seller_id@),
            raw.deep_view() == product_notes(dv, filter, known, i as int),
            products_decoded(products@, accepted_products(dv, filter, i as int)),
        decreases lines.len() - i,
    {
        proof {
            assert(dv[i as int] == lines@[i as int]@);
        }
        let ghost notes_before = raw.deep_view();
        let ghost line_notes = product_line_notes(dv[i as int], i as nat, filter, known);
        let (line, length_notes) = EdiLine::line_role_of(lines[i].clone(), i, SEQ_PROD_REQLEN);
        append_texts(&mut raw, length_notes);
        match line {
            Some(EdiLine::Seller(_)) => {
                proof {
                    lemma_trimmed_is_tight(dv[1]);
                }
                if !seller_known {
                    let mut note = "Unable to find config for seller ID ".to_owned();
                    note.append(seller_id);
                    note.append(", skipping seller...");
                    let ghost so_far = raw.deep_view();
                    raw.push(note);
                    proof {
                        assert(raw.deep_view() =~= so_far.push(unknown_seller(seller_id@)));
                    }
                }
                proof {
                    assert(raw.deep_view() =~= notes_before + line_notes);
                }
            },
            Some(EdiLine::Entry(text)) => {
                match Product::from_line(text, Some(lang_filter)) {
                    Ok((product, notes)) => {
                        append_texts(&mut raw, notes);
                        proof {
                            assert(raw.deep_view() =~= notes_before + line_notes);
                        }
                        products.push(product);
                    },
                    Err(e) => {
                        let mut note = "Product read: ".to_owned();
                        note.append(e.message.as_str());
                        let ghost so_far = raw.deep_view();
                        raw.push(note);
                        proof {
                            assert(raw.deep_view() =~= so_far.push(refused_product(e@)));
                            assert(raw.deep_view() =~= notes_before + line_notes);
                        }
                    },
                }
            },
            _ => {
                proof {
                    assert(raw.deep_view() =~= notes_before + line_notes);
                }
            },
        }
        i = i + 1;
    }
    (products, raw)
}

/// Reads a product file for one language and files its products over the
/// seller's catalogue `existing`. The lines are taken by position: the
/// first two are headers, the others entries; an entry that does not
/// decode, or is in another language, is passed over with a warning. Only
/// a seller header that does not decode fails the pass.
pub fn products_import(
    lines: &Vec<String>,
    lang_filter: &Lang,
    sellers: &Vec<Seller>,
    existing: Catalog<Product>,
) -> (r: Result<ProductImport, EdiError>)
    ensures
        match r {
            Ok(batch) => {
                &&& file_seller(lines.deep_view()) == Ok::<(Seq<Seq<char>>, Seq<char>), Failure>(
                    (batch.supplier_dir.deep_view(), batch.seller_id@),
                )
                &&& batch.seller_name.deep_view() == seller_name_of(sellers@, batch.seller_id@)
                &&& strictly_sorted(batch.warnings.deep_view())
                &&& forall|x: Seq<char>|
                    batch.warnings.deep_view().contains(x) <==> product_notes(
                        lines.deep_view(),
                        Some(*lang_filter),
                        seller_ids(sellers@),
                        lines.len() as int,
                    ).contains(x)
                &&& exists|records: Seq<Product>|
                    {
                        &&& #[trigger] products_decoded(
                            records,
                            accepted_products(
                                lines.deep_view(),
                                Some(*lang_filter),
                                lines.len() as int,
                            ),
                        )
                        &&& forall|c: Category|
                            #[trigger] batch.catalog.records(c) == overlay(
                                existing.records(c),
                                records,
                                c,
                            )
                        &&& forall|c: Category|
                            #[trigger] batch.catalog.shelf(c) is Some <==> existing.shelf(c) is Some
                                || touches(records, c)
                    }
            },
            Err(e) => file_seller(lines.deep_view()) == Err::<(Seq<Seq<char>>, Seq<char>), Failure>(
                e@,
            ),
        },
{
    let (supplier_dir, seller_id) = read_file_seller(lines)?;
    let (seller_name, seller_known) = match find_seller(sellers, seller_id.as_str()) {
        Some(k) => (Some(sellers[k].name.clone()), true),
        None => (None, false),
    };
    let (products, raw) = read_product_lines(
        lines,
        lang_filter,
        seller_id.as_str(),
        seller_known,
        Ghost(seller_ids(sellers@)),
    );
    let mut catalog = existing;
    let ghost records = products@;
    catalog.file_all(products);
    let warnings = sorted_distinct(&raw);
    proof {
        assert(products_decoded(
            records,
            accepted_products(lines.deep_view(), Some(*lang_filter), lines.len() as int),
        ));
    }
    Ok(ProductImport { supplier_dir, seller_id, seller_name, catalog, warnings })
}

/// Whether a file is a product file: whether its first line after the
/// two header lines decodes as a product. A file without such a line is
/// an error.
pub open spec fn product_file(lines: Seq<Seq<char>>) -> Result<bool, Failure> {
    if lines.len() < 3 {
        Err(missing_record())
    } else {
        Ok(product_failure(lines[2], None) is None)
    }
}

/// Tells whether the lines of a file are those of a product file.
pub fn is_product_file(lines: &Vec<String>) -> (r: Result<bool, EdiError>)
    ensures
        match r {
            Ok(b) => product_file(lines.deep_view()) == Ok::<bool, Failure>(b),
            Err(e) => product_file(lines.deep_view()) == Err::<bool, Failure>(e@),
        },
{
    if lines.len() < 3 {
        return Err(missing_record_error());
    }
    proof {
        assert(lines.deep_view()[2] == lines@[2]@);
    }
    Ok(Product::from_line(lines[2].clone(), None).is_ok())
}

/// A pass with a language filter takes exactly the lines that a pass
/// without filter takes and that are in the language of the filter.
pub proof fn lemma_filter_selects_language(line: Seq<char>, lang: Lang)
    ensures
        product_failure(line, Some(lang)) is None <==> product_failure(line, None) is None
            && lang_of(field_at(line, EXPL_SEQ_PRODUCT@, 4)) == Some(lang),
{
    let with = product_checks(line, Some(lang));
    let without = product_checks(line, None);
    if product_failure(line, Some(lang)) is None {
        assert forall|i: int| 0 <= i < 27 implies (#[trigger] without(i)) is None by {
            lemma_all_pass(with, i, 27);
        }
        lemma_none_fails(without, 27);
        lemma_all_pass(with, 4, 27);
    }
    if product_failure(line, None) is None && lang_of(field_at(line, EXPL_SEQ_PRODUCT@, 4))
        == Some(lang) {
        assert forall|i: int| 0 <= i < 27 implies (#[trigger] with(i)) is None by {
            lemma_all_pass(without, i, 27);
        }
        lemma_none_fails(with, 27);
    }
}

/// The passes over one file, one for each language, part its entries by
/// language: a pass with a language filter takes a line exactly when the
/// pass without filter takes it and the line is in the language of the
/// filter.
pub proof fn lemma_pass_selects_language(
    lines: Seq<Seq<char>>,
    lang: Lang,
    n: int,
    text: Seq<char>,
)
    ensures
        accepted_products(lines, Some(lang), n).contains(text) <==> accepted_products(
            lines,
            None,
            n,
        ).contains(text) && lang_of(field_at(text, EXPL_SEQ_PRODUCT@, 4)) == Some(lang),
    decreases n,
{
    if n > 0 {
        lemma_pass_selects_language(lines, lang, n - 1, text);
        let with = accepted_products(lines, Some(lang), n);
        let without = accepted_products(lines, None, n);
        let with_before = accepted_products(lines, Some(lang), n - 1);
        let without_before = accepted_products(lines, None, n - 1);
        match line_role(lines[n - 1], (n - 1) as nat, SEQ_PROD_REQLEN as nat) {
            Some((LineKind::Entry, entry)) => {
                lemma_filter_selects_language(entry, lang);
            },
            _ => {},
        }
        if with.contains(text) {
            let k = choose|k: int| 0 <= k < with.len() && with[k] == text;
            if k < with_before.len() {
                assert(with_before[k] == text);
                assert(with_before.contains(text));
                let m = choose|m: int| 0 <= m < without_before.len() && without_before[m] == text;
                assert(without[m] == text);
            } else {
                assert(without[without.len() - 1] == text);
            }
        }
        if without.contains(text) && lang_of(field_at(text, EXPL_SEQ_PRODUCT@, 4)) == Some(lang) {
            let k = choose|k: int| 0 <= k < without.len() && without[k] == text;
            if k < without_before.len() {
                assert(without_before[k] == text);
                assert(without_before.contains(text));
                let m = choose|m: int| 0 <= m < with_before.len() && with_before[m] == text;
                assert(with[m] == text);
            } else {
                assert(with[with.len() - 1] == text);
            }
        }
    }
}

/// A packaging price that its field writes as zero is stored as absent:
/// no decoded product holds a packaging price, a packaging discount, a
/// weight or a volume that is zero.
pub proof fn lemma_zero_is_absent(product: Product, line: Seq<char>)
    requires
        product.decodes(line),
    ensures
        product.packaging_1 matches Some(d) ==> d.scaled() != 0,
        product.packaging_1_discount matches Some(d) ==> d.scaled() != 0,
        product.packaging_2 matches Some(d) ==> d.scaled() != 0,
        product.packaging_2_discount matches Some(d) ==> d.scaled() != 0,
        product.packaging_3 matches Some(d) ==> d.scaled() != 0,
        product.packaging_3_discount matches Some(d) ==> d.scaled() != 0,
        product.unit_weight matches Some(d) ==> d.scaled() != 0,
        product.unit_volume matches Some(d) ==> d.scaled() != 0,
{
}

} // verus!

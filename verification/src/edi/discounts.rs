//! Discount entries: one line of a buyer's discount file decoded into a
//! discount record.

use vstd::prelude::*;
use vstd::string::*;
use crate::edi::{
    append_texts, check_row_marker, contains_text, EdiLine, failure_in, field, field_at, file_buyer,
    file_seller, first_failure, fits, lemma_check, line_role, line_warnings, LineKind,
    missing_record, missing_record_error, read_file_buyer, read_file_seller, refused_line,
    refused_line_warning, row_marker_failure, split_fields, total_width, truncated_at,
};
use crate::error::{EdiError, Failure};
use crate::number::{decode_decimal, PackedDecimal, required_decimal};
use crate::order::{sorted_distinct, strictly_sorted};
use crate::utils::{is_alphanumeric, random_token};

verus! {

/// The length of a discount entry line.
pub const SEQ_DISC_REQLEN: usize = 92;

/// The field widths of a discount entry line.
pub const EXPL_SEQ_DISC: [usize; 7] = [1, 6, 25, 40, 2, 9, 9];

/// The widths of a discount entry add up to its documented length.
pub proof fn lemma_discount_widths()
    ensures
        total_width(EXPL_SEQ_DISC@) == SEQ_DISC_REQLEN,
{
    reveal_with_fuel(crate::edi::offset_of, 8);
}

/// The discount that a seller grants one buyer on one discount group.
#[derive(Debug, Clone, PartialEq, Eq)]
pub struct Discount {
    pub discount_group: String,
    pub id: String,
    pub name: String,
    pub price_group: String,
    pub pc1: PackedDecimal,
    pub pc2: PackedDecimal,
}

/// Why field `i` of a discount line is refused, if it is.
pub open spec fn discount_failure_at(line: Seq<char>, i: int) -> Option<Failure> {
    let value = field_at(line, EXPL_SEQ_DISC@, i);
    if !fits(line, EXPL_SEQ_DISC@, i) {
        Some(truncated_at(line, EXPL_SEQ_DISC@, i))
    } else if i == 0 {
        row_marker_failure(value)
    } else if i == 5 || i == 6 {
        failure_in(required_decimal(value, 7))
    } else {
        None
    }
}

/// The checks of a discount line, field by field.
pub open spec fn discount_checks(line: Seq<char>) -> spec_fn(int) -> Option<Failure> {
    |i: int| discount_failure_at(line, i)
}

/// Why a discount line is refused, if it is: its fields are read from the
/// left, and the first one that is refused decides.
pub open spec fn discount_failure(line: Seq<char>) -> Option<Failure> {
    first_failure(discount_checks(line), 7)
}

impl Discount {
    /// Whether the record holds, attribute by attribute, what the fields
    /// of `line` say.
    pub open spec fn decodes(&self, line: Seq<char>) -> bool {
        let w = EXPL_SEQ_DISC@;
        &&& self.discount_group@ == field_at(line, w, 1)
        &&& self.id@ == field_at(line, w, 2)
        &&& self.name@ == field_at(line, w, 3)
        &&& self.price_group@ == field_at(line, w, 4)
        &&& required_decimal(field_at(line, w, 5), 7) == Ok::<(Seq<char>, Seq<char>), Failure>(
            self.pc1@,
        )
        &&& self.pc1.wf()
        &&& required_decimal(field_at(line, w, 6), 7) == Ok::<(Seq<char>, Seq<char>), Failure>(
            self.pc2@,
        )
        &&& self.pc2.wf()
    }

    /// A discount that no line has filled yet.
    pub fn new() -> (d: Self)
        ensures
            d.discount_group@.len() == 0,
            d.id@.len() == 0,
            d.name@.len() == 0,
            d.price_group@.len() == 0,
            d.pc1@ == ("0"@, "0"@),
            d.pc2@ == ("0"@, "0"@),
    {
        Self {
            discount_group: String::new(),
            id: String::new(),
            name: String::new(),
            price_group: String::new(),
            pc1: PackedDecimal { whole: "0".to_owned(), fraction: "0".to_owned() },
            pc2: PackedDecimal { whole: "0".to_owned(), fraction: "0".to_owned() },
        }
    }

    /// Decodes a discount entry line.
    pub fn from_line(line: String) -> (r: Result<Self, EdiError>)
        ensures
            match r {
                Ok(d) => discount_failure(line@) is None && d.decodes(line@),
                Err(e) => discount_failure(line@) == Some(e@),
            },
    {
        let text = line.as_str();
        let fields = split_fields(text, &EXPL_SEQ_DISC);
        let ghost at = discount_checks(line@);
        proof {
            lemma_check(at, 0, 7);
        }
        check_row_marker(field(&fields, 0, text, &EXPL_SEQ_DISC)?)?;
        proof {
            lemma_check(at, 1, 7);
        }
        let discount_group = field(&fields, 1, text, &EXPL_SEQ_DISC)?.to_owned();
        proof {
            lemma_check(at, 2, 7);
        }
        let id = field(&fields, 2, text, &EXPL_SEQ_DISC)?.to_owned();
        proof {
            lemma_check(at, 3, 7);
        }
        let name = field(&fields, 3, text, &EXPL_SEQ_DISC)?.to_owned();
        proof {
            lemma_check(at, 4, 7);
        }
        let price_group = field(&fields, 4, text, &EXPL_SEQ_DISC)?.to_owned();
        proof {
            lemma_check(at, 5, 7);
        }
        let pc1 = decode_decimal(field(&fields, 5, text, &EXPL_SEQ_DISC)?, 7)?;
        proof {
            lemma_check(at, 6, 7);
        }
        let pc2 = decode_decimal(field(&fields, 6, text, &EXPL_SEQ_DISC)?, 7)?;
        Ok(Self { discount_group, id, name, price_group, pc1, pc2 })
    }
}

/// The warning of a discount on a discount group that the store does not
/// know.
pub open spec fn unknown_discount_group(group: Seq<char>) -> Seq<char> {
    "["@ + group + "]: Ignoring as discount group was not found"@
}

/// The warning of a discount on a price group that the store does not
/// know.
pub open spec fn unknown_price_group(group: Seq<char>, price_group: Seq<char>) -> Seq<char> {
    "["@ + group + "]: Ignoring as price group '"@ + price_group + "' was not found"@
}

/// Whether a discount line is taken: it decodes, and the store knows both
/// its discount group and its price group.
pub open spec fn discount_taken(
    text: Seq<char>,
    discount_groups: Seq<Seq<char>>,
    price_groups: Seq<Seq<char>>,
) -> bool {
    &&& discount_failure(text) is None
    &&& discount_groups.contains(field_at(text, EXPL_SEQ_DISC@, 1))
    &&& price_groups.contains(field_at(text, EXPL_SEQ_DISC@, 4))
}

/// The warnings that line `i` of a discount file raises: those of its
/// length, then the one of an entry that does not decode, or of a discount
/// on a group that the store does not know.
pub open spec fn discount_line_notes(
    line: Seq<char>,
    i: nat,
    discount_groups: Seq<Seq<char>>,
    price_groups: Seq<Seq<char>>,
) -> Seq<Seq<char>> {
    line_warnings(line, i, SEQ_DISC_REQLEN as nat) + (match line_role(
        line,
        i,
        SEQ_DISC_REQLEN as nat,
    ) {
        Some((LineKind::Entry, text)) => if discount_failure(text) is Some {
            seq![refused_line("discount"@, discount_failure(text)->Some_0, i)]
        } else if !discount_groups.contains(field_at(text, EXPL_SEQ_DISC@, 1)) {
            seq![unknown_discount_group(field_at(text, EXPL_SEQ_DISC@, 1))]
        } else if !price_groups.contains(field_at(text, EXPL_SEQ_DISC@, 4)) {
            seq![
                unknown_price_group(
                    field_at(text, EXPL_SEQ_DISC@, 1),
                    field_at(text, EXPL_SEQ_DISC@, 4),
                ),
            ]
        } else {
            seq![]
        },
        _ => seq![],
    })
}

/// The warnings of the first `n` lines of a discount file, in the order
/// in which they arise.
pub open spec fn discount_notes(
    lines: Seq<Seq<char>>,
    discount_groups: Seq<Seq<char>>,
    price_groups: Seq<Seq<char>>,
    n: int,
) -> Seq<Seq<char>>
    decreases n,
{
    if n <= 0 {
        seq![]
    } else {
        discount_notes(lines, discount_groups, price_groups, n - 1) + discount_line_notes(
            lines[n - 1],
            (n - 1) as nat,
            discount_groups,
            price_groups,
        )
    }
}

/// The entry lines among the first `n` lines of a discount file that are
/// taken, as they are decoded and in order.
pub open spec fn accepted_discounts(
    lines: Seq<Seq<char>>,
    discount_groups: Seq<Seq<char>>,
    price_groups: Seq<Seq<char>>,
    n: int,
) -> Seq<Seq<char>>
    decreases n,
{
    if n <= 0 {
        seq![]
    } else {
        let before = accepted_discounts(lines, discount_groups, price_groups, n - 1);
        match line_role(lines[n - 1], (n - 1) as nat, SEQ_DISC_REQLEN as nat) {
            Some((LineKind::Entry, text)) => if discount_taken(
                text,
                discount_groups,
                price_groups,
            ) {
                before.push(text)
            } else {
                before
            },
            _ => before,
        }
    }
}

/// Whether `records` are the discounts that the lines `texts` decode to,
/// one for one.
pub open spec fn discounts_decoded(records: Seq<Discount>, texts: Seq<Seq<char>>) -> bool {
    &&& records.len() == texts.len()
    &&& forall|k: int| 0 <= k < records.len() ==> (#[trigger] records[k]).decodes(texts[k])
}

/// What a pass over a discount file yields.
#[derive(Debug)]
pub struct DiscountImport {
    /// The home of the seller, as path components below the root.
    pub seller_dir: Vec<String>,
    /// The identifier of the seller.
    pub seller_id: String,
    /// The identifier that the seller gave the buyer.
    pub buyer_id: String,
    /// The key of the buyer in the store: buyer and seller identifier.
    pub buyer_key: String,
    /// A fresh public identifier for the buyer, used when the buyer is new.
    pub uuid: String,
    /// The home of the buyer below the seller's.
    pub buyer_dir: Vec<String>,
    /// The discounts that were taken, in the order of their lines.
    pub discounts: Vec<Discount>,
    /// The warnings of the pass, sorted, each once.
    pub warnings: Vec<String>,
}

/// Decodes the entry lines of a discount file: the discounts that are
/// taken, in order, and the warnings of all lines, in order.
fn read_discount_lines(
    lines: &Vec<String>,
    discount_groups: &Vec<String>,
    price_groups: &Vec<String>,
) -> (r: (Vec<Discount>, Vec<String>))
    ensures
        discounts_decoded(
            r.0@,
            accepted_discounts(
                lines.deep_view(),
                discount_groups.deep_view(),
                price_groups.deep_view(),
                lines.len() as int,
            ),
        ),
        r.1.deep_view() == discount_notes(
            lines.deep_view(),
            discount_groups.deep_view(),
            price_groups.deep_view(),
            lines.len() as int,
        ),
{
    let ghost dv = lines.deep_view();
    let ghost dgs = discount_groups.deep_view();
    let ghost pgs = price_groups.deep_view();
    let mut discounts: Vec<Discount> = Vec::new();
    let mut raw: Vec<String> = Vec::new();
    let mut i: usize = 0;
    proof {
        assert(raw.deep_view() =~= discount_notes(dv, dgs, pgs, 0));
    }
    while i < lines.len()
        invariant
            i <= lines.len(),
            dv == lines.deep_view(),
            dgs == discount_groups.deep_view(),
            pgs == price_groups.deep_view(),
            raw.deep_view() == discount_notes(dv, dgs, pgs, i as int),
            discounts_decoded(discounts@, accepted_discounts(dv, dgs, pgs, i as int)),
        decreases lines.len() - i,
    {
        proof {
            assert(dv[i as int] == lines@[i as int]@);
        }
        let ghost notes_before = raw.deep_view();
        let ghost line_notes = discount_line_notes(dv[i as int], i as nat, dgs, pgs);
        let (line, length_notes) = EdiLine::line_role_of(lines[i].clone(), i, SEQ_DISC_REQLEN);
        append_texts(&mut raw, length_notes);
        match line {
            Some(EdiLine::Entry(text)) => {
                match Discount::from_line(text) {
                    Ok(discount) => {
                        if !contains_text(discount_groups, discount.discount_group.as_str()) {
                            let mut note = "[".to_owned();
                            note.append(discount.discount_group.as_str());
                            note.append("]: Ignoring as discount group was not found");
                            let ghost so_far = raw.deep_view();
                            raw.push(note);
                            proof {
                                assert(raw.deep_view() =~= so_far.push(
                                    unknown_discount_group(discount.discount_group@),
                                ));
                                assert(raw.deep_view() =~= notes_before + line_notes);
                            }
                        } else if !contains_text(price_groups, discount.price_group.as_str()) {
                            let mut note = "[".to_owned();
                            note.append(discount.discount_group.as_str());
                            note.append("]: Ignoring as price group '");
                            note.append(discount.price_group.as_str());
                            note.append("' was not found");
                            let ghost so_far = raw.deep_view();
                            raw.push(note);
                            proof {
                                assert(raw.deep_view() =~= so_far.push(
                                    unknown_price_group(
                                        discount.discount_group@,
                                        discount.price_group@,
                                    ),
                                ));
                                assert(raw.deep_view() =~= notes_before + line_notes);
                            }
                        } else {
                            proof {
                                assert(raw.deep_view() =~= notes_before + line_notes);
                            }
                            discounts.push(discount);
                        }
                    },
                    Err(e) => {
                        let ghost so_far = raw.deep_view();
                        raw.push(refused_line_warning("discount", &e, i));
                        proof {
                            assert(raw.deep_view() =~= so_far.push(
                                refused_line("discount"@, e@, i as nat),
                            ));
                            assert(raw.deep_view() =~= notes_before + line_notes);
                        }
                    },
                }
            },
            _ => {
                proof {
                    assert(raw.deep_view() =~= notes_before + line_notes);
                }
            },
        }
        i = i + 1;
    }
    (discounts, raw)
}

/// The parties that a discount file names: the buyer's identifier from
/// its first line, the seller's home and identifier from its second. The
/// first header that does not decode decides the error.
pub open spec fn discount_parties(lines: Seq<Seq<char>>) -> Result<
    (Seq<char>, Seq<Seq<char>>, Seq<char>),
    Failure,
> {
    match file_buyer(lines) {
        Err(f) => Err(f),
        Ok(buyer_id) => match file_seller(lines) {
            Err(f) => Err(f),
            Ok((dir, seller_id)) => Ok((buyer_id, dir, seller_id)),
        },
    }
}

/// Reads a buyer's discount file: the discounts on groups that the store
/// knows, in the order of their lines. `discount_groups` and
/// `price_groups` are the groups that the store knows. A line that does
/// not decode is passed over with a warning; only a header that does not
/// decode fails the pass.
pub fn discounts_import(
    lines: &Vec<String>,
    discount_groups: &Vec<String>,
    price_groups: &Vec<String>,
) -> (r: Result<DiscountImport, EdiError>)
    ensures
        match r {
            Ok(batch) => {
                &&& discount_parties(lines.deep_view()) == Ok::<
                    (Seq<char>, Seq<Seq<char>>, Seq<char>),
                    Failure,
                >((batch.buyer_id@, batch.seller_dir.deep_view(), batch.seller_id@))
                &&& batch.buyer_key@ == batch.buyer_id@ + batch.seller_id@
                &&& batch.buyer_dir.deep_view() == batch.seller_dir.deep_view().push(
                    "buyers"@,
                ).push(batch.buyer_id@)
                &&& batch.uuid@.len() == 20
                &&& forall|i: int|
                    0 <= i < batch.uuid@.len() ==> is_alphanumeric(#[trigger] batch.uuid@[i])
                &&& discounts_decoded(
                    batch.discounts@,
                    accepted_discounts(
                        lines.deep_view(),
                        discount_groups.deep_view(),
                        price_groups.deep_view(),
                        lines.len() as int,
                    ),
                )
                &&& strictly_sorted(batch.warnings.deep_view())
                &&& forall|x: Seq<char>|
                    batch.warnings.deep_view().contains(x) <==> discount_notes(
                        lines.deep_view(),
                        discount_groups.deep_view(),
                        price_groups.deep_view(),
                        lines.len() as int,
                    ).contains(x)
            },
            Err(e) => discount_parties(lines.deep_view()) == Err::<
                (Seq<char>, Seq<Seq<char>>, Seq<char>),
                Failure,
            >(e@),
        },
{
    let buyer_id = read_file_buyer(lines)?;
    let (seller_dir, seller_id) = read_file_seller(lines)?;
    let (discounts, raw) = read_discount_lines(lines, discount_groups, price_groups);
    let warnings = sorted_distinct(&raw);
    let mut buyer_key = buyer_id.clone();
    buyer_key.append(seller_id.as_str());
    let mut buyer_dir: Vec<String> = Vec::new();
    let mut k: usize = 0;
    while k < seller_dir.len()
        invariant
            k <= seller_dir.len(),
            buyer_dir.deep_view() == seller_dir.deep_view().take(k as int),
        decreases seller_dir.len() - k,
    {
        let ghost so_far = buyer_dir.deep_view();
        buyer_dir.push(seller_dir[k].clone());
        proof {
            assert(buyer_dir.deep_view() =~= so_far.push(seller_dir@[k as int]@));
            assert(seller_dir.deep_view().take(k + 1) =~= seller_dir.deep_view().take(
                k as int,
            ).push(seller_dir@[k as int]@));
        }
        k = k + 1;
    }
    let ghost copied = buyer_dir.deep_view();
    buyer_dir.push("buyers".to_owned());
    let ghost with_buyers = buyer_dir.deep_view();
    buyer_dir.push(buyer_id.clone());
    proof {
        assert(seller_dir.deep_view().take(seller_dir.len() as int) =~= seller_dir.deep_view());
        assert(with_buyers =~= copied.push("buyers"@));
        assert(buyer_dir.deep_view() =~= with_buyers.push(buyer_id@));
    }
    let uuid = random_token(20);
    Ok(
        DiscountImport {
            seller_dir,
            seller_id,
            buyer_id,
            buyer_key,
            uuid,
            buyer_dir,
            discounts,
            warnings,
        },
    )
}

/// Whether a file is a discount file: whether its first line after the
/// two header lines decodes as a discount. A file without such a line is
/// an error.
pub open spec fn discount_file(lines: Seq<Seq<char>>) -> Result<bool, Failure> {
    if lines.len() < 3 {
        Err(missing_record())
    } else {
        Ok(discount_failure(lines[2]) is None)
    }
}

/// Tells whether the lines of a file are those of a discount file.
pub fn is_discount_file(lines: &Vec<String>) -> (r: Result<bool, EdiError>)
    ensures
        match r {
            Ok(b) => discount_file(lines.deep_view()) == Ok::<bool, Failure>(b),
            Err(e) => discount_file(lines.deep_view()) == Err::<bool, Failure>(e@),
        },
{
    if lines.len() < 3 {
        return Err(missing_record_error());
    }
    proof {
        assert(lines.deep_view()[2] == lines@[2]@);
    }
    Ok(Discount::from_line(lines[2].clone()).is_ok())
}

} // verus!

//! The import of a file as a whole: its kind, the steps of its import,
//! and the report on its warnings.

use vstd::prelude::*;
use vstd::string::*;
use crate::edi::discounts::{discount_failure, is_discount_file};
use crate::edi::header::EdiOwnership;
use crate::edi::prices::{is_price_file, price_failure};
use crate::edi::products::{is_product_file, product_failure};
use crate::error::{EdiError, EdiErrorKind, Failure};
use crate::text::{decimal_text, number_text};
use crate::utils::Lang;

verus! {

/// The error of a file that ends with its header lines.
pub open spec fn missing_record() -> Failure {
    Failure {
        kind: EdiErrorKind::MissingRecord,
        text: "The file holds no line after its two header lines."@,
    }
}

/// Builds the error of a file that ends with its header lines.
pub fn missing_record_error() -> (e: EdiError)
    ensures
        e@ == missing_record(),
{
    EdiError::with_text(
        EdiErrorKind::MissingRecord,
        "The file holds no line after its two header lines.",
    )
}

/// The record kind of an interchange file.
#[derive(Debug, Clone, Copy, PartialEq, Eq, Structural)]
pub enum EdiKind {
    Product,
    Price,
    Discount,
    Unrecognized,
}

/// The kind of a file, decided by its first line after the two header
/// lines: the first of product, price and discount that the line decodes
/// as. A file whose line decodes as none of them, and a file that has no
/// such line, is not recognised.
pub open spec fn kind_of(lines: Seq<Seq<char>>) -> EdiKind {
    if lines.len() < 3 {
        EdiKind::Unrecognized
    } else if product_failure(lines[2], None) is None {
        EdiKind::Product
    } else if price_failure(lines[2]) is None {
        EdiKind::Price
    } else if discount_failure(lines[2]) is None {
        EdiKind::Discount
    } else {
        EdiKind::Unrecognized
    }
}

/// Classifies a file by its lines. Every file has a kind: one that fits
/// no decoder is not recognised, and is removed by the import.
pub fn classify(lines: &Vec<String>) -> (kind: EdiKind)
    ensures
        kind == kind_of(lines.deep_view()),
{
    if lines.len() < 3 {
        return EdiKind::Unrecognized;
    }
    let product = match is_product_file(lines) {
        Ok(b) => b,
        Err(_) => false,
    };
    if product {
        return EdiKind::Product;
    }
    let price = match is_price_file(lines) {
        Ok(b) => b,
        Err(_) => false,
    };
    if price {
        return EdiKind::Price;
    }
    let discount = match is_discount_file(lines) {
        Ok(b) => b,
        Err(_) => false,
    };
    if discount {
        return EdiKind::Discount;
    }
    EdiKind::Unrecognized
}

/// How the import of a file ended: whether the file was recognised, and
/// whether its records were taken (`true`) or the file was passed over as
/// a delivery that is on file already (`false`).
#[derive(Debug, Clone, Copy, PartialEq, Eq, Structural)]
pub enum EdiType {
    Invalid,
    Product(bool),
    Price(bool),
    Discount(bool),
}

/// What the importer waits for.
#[derive(Debug, Clone, Copy, PartialEq, Eq, Structural)]
pub enum ImportState {
    /// The answer of the archive: is the file on file already?
    Comparing(EdiKind),
    /// The end of the product pass for the language at this position of
    /// the configured languages.
    Products(usize),
    /// The end of the price pass.
    Prices,
    /// The end of the discount pass.
    Discounts,
    /// The move of the file into the archive of its party.
    Archiving(EdiKind),
    /// The removal of the file; the import then ends with this outcome.
    Removing(EdiType),
    /// Nothing: the import has ended.
    Finished,
}

/// What happened outside the importer.
#[derive(Debug, Clone, Copy, PartialEq, Eq, Structural)]
pub enum ImportEvent {
    /// The archive was searched: the file is, or is not, on file already.
    Compared { duplicate: bool },
    /// A pass over the file ended and its records are stored.
    Stored,
    /// A pass over the file failed.
    Failed,
    /// The file was moved or removed.
    Done,
}

/// The name under which a file is archived.
#[derive(Debug, Clone, Copy, PartialEq, Eq, Structural)]
pub enum ArchiveName {
    /// The name it arrived with.
    Delivered,
    /// `discounts.txt`: a buyer keeps one discount file per seller.
    Discounts,
}

/// What the importer asks for next.
#[derive(Debug, Clone, Copy, PartialEq, Eq, Structural)]
pub enum ImportAction {
    /// Search the archive of the party of this ownership for the file.
    Compare(EdiOwnership),
    /// Run the product pass for this language.
    StoreProducts(Lang),
    /// Run the price pass.
    StorePrices,
    /// Run the discount pass.
    StoreDiscounts,
    /// Move the file into the archive of its party.
    Archive(ArchiveName),
    /// Remove the file.
    Delete,
    /// End the import with this outcome.
    Return(EdiType),
    /// End the import with the error of the step that failed.
    Abort,
}

/// The outcome of an import that took the records of a file of `kind`
/// (`taken`) or passed the file over.
pub open spec fn outcome(kind: EdiKind, taken: bool) -> EdiType {
    match kind {
        EdiKind::Product => EdiType::Product(taken),
        EdiKind::Price => EdiType::Price(taken),
        EdiKind::Discount => EdiType::Discount(taken),
        EdiKind::Unrecognized => EdiType::Invalid,
    }
}

/// The first thing to do with a file of `kind`: a recognised file is
/// searched for in the archive of its party, a seller's for products and
/// prices, a buyer's for discounts; any other file is removed.
pub open spec fn import_start(kind: EdiKind) -> (ImportState, ImportAction) {
    match kind {
        EdiKind::Product => (ImportState::Comparing(kind), ImportAction::Compare(EdiOwnership::Seller)),
        EdiKind::Price => (ImportState::Comparing(kind), ImportAction::Compare(EdiOwnership::Seller)),
        EdiKind::Discount => (ImportState::Comparing(kind), ImportAction::Compare(EdiOwnership::Buyer)),
        EdiKind::Unrecognized => (ImportState::Removing(EdiType::Invalid), ImportAction::Delete),
    }
}

/// The product pass to run from position `next` of the languages on: one
/// pass for each language, then the move to the archive.
pub open spec fn product_pass(langs: Seq<Lang>, next: int) -> (ImportState, ImportAction) {
    if 0 <= next < langs.len() {
        (ImportState::Products(next as usize), ImportAction::StoreProducts(langs[next]))
    } else {
        (ImportState::Archiving(EdiKind::Product), ImportAction::Archive(ArchiveName::Delivered))
    }
}

/// The rules of an import: from what the importer waits for and what
/// happened to what it waits for next and what it asks for.
///
/// A file that is on file already is passed over: nothing is stored, the
/// file is removed and the import ends. Products are stored once for each
/// configured language, one pass after the other. A pass that fails, of
/// whatever kind, ends the import at once: the file is not archived and
/// no outcome is reported. So does a search of the archive that fails. A
/// file whose records are stored is archived, a discount file under its
/// fixed name.
pub open spec fn import_next(state: ImportState, event: ImportEvent, langs: Seq<Lang>) -> (
    ImportState,
    ImportAction,
) {
    match (state, event) {
        (ImportState::Comparing(kind), ImportEvent::Compared { duplicate }) => if duplicate {
            (ImportState::Removing(outcome(kind, false)), ImportAction::Delete)
        } else {
            match kind {
                EdiKind::Product => product_pass(langs, 0),
                EdiKind::Price => (ImportState::Prices, ImportAction::StorePrices),
                EdiKind::Discount => (ImportState::Discounts, ImportAction::StoreDiscounts),
                EdiKind::Unrecognized => (ImportState::Removing(EdiType::Invalid), ImportAction::Delete),
            }
        },
        (ImportState::Products(i), ImportEvent::Stored) => product_pass(langs, i + 1),
        (ImportState::Prices, ImportEvent::Stored) => (
            ImportState::Archiving(EdiKind::Price),
            ImportAction::Archive(ArchiveName::Delivered),
        ),
        (ImportState::Discounts, ImportEvent::Stored) => (
            ImportState::Archiving(EdiKind::Discount),
            ImportAction::Archive(ArchiveName::Discounts),
        ),
        (ImportState::Archiving(kind), ImportEvent::Done) => (
            ImportState::Finished,
            ImportAction::Return(outcome(kind, true)),
        ),
        (ImportState::Removing(result), ImportEvent::Done) => (
            ImportState::Finished,
            ImportAction::Return(result),
        ),
        _ => (ImportState::Finished, ImportAction::Abort),
    }
}

impl ArchiveName {
    /// The name to archive a file under, given the name it arrived with.
    pub fn resolve(&self, delivered: &str) -> (name: String)
        ensures
            name@ == match *self {
                ArchiveName::Delivered => delivered@,
                ArchiveName::Discounts => "discounts.txt"@,
            },
    {
        match self {
            ArchiveName::Delivered => delivered.to_owned(),
            ArchiveName::Discounts => "discounts.txt".to_owned(),
        }
    }
}

impl EdiType {
    /// The first step of the import of a file of `kind`.
    pub fn import_begin(kind: EdiKind) -> (r: (ImportState, ImportAction))
        ensures
            r == import_start(kind),
    {
        match kind {
            EdiKind::Product => (
                ImportState::Comparing(kind),
                ImportAction::Compare(EdiOwnership::Seller),
            ),
            EdiKind::Price => (ImportState::Comparing(kind), ImportAction::Compare(EdiOwnership::Seller)),
            EdiKind::Discount => (
                ImportState::Comparing(kind),
                ImportAction::Compare(EdiOwnership::Buyer),
            ),
            EdiKind::Unrecognized => (ImportState::Removing(EdiType::Invalid), ImportAction::Delete),
        }
    }

    fn product_step(langs: &Vec<Lang>, next: usize) -> (r: (ImportState, ImportAction))
        ensures
            r == product_pass(langs@, next as int),
    {
        if next < langs.len() {
            (ImportState::Products(next), ImportAction::StoreProducts(langs[next]))
        } else {
            (ImportState::Archiving(EdiKind::Product), ImportAction::Archive(ArchiveName::Delivered))
        }
    }

    /// The next step of an import: what to wait for and what to do, given
    /// what the importer waited for and what happened. `langs` are the
    /// configured languages.
    pub fn import_step(state: ImportState, event: ImportEvent, langs: &Vec<Lang>) -> (r: (
        ImportState,
        ImportAction,
    ))
        ensures
            r == import_next(state, event, langs@),
    {
        match state {
            ImportState::Comparing(kind) => match event {
                ImportEvent::Compared { duplicate } => {
                    if duplicate {
                        (ImportState::Removing(Self::of(kind, false)), ImportAction::Delete)
                    } else {
                        match kind {
                            EdiKind::Product => Self::product_step(langs, 0),
                            EdiKind::Price => (ImportState::Prices, ImportAction::StorePrices),
                            EdiKind::Discount => (
                                ImportState::Discounts,
                                ImportAction::StoreDiscounts,
                            ),
                            EdiKind::Unrecognized => (ImportState::Removing(EdiType::Invalid), ImportAction::Delete),
                        }
                    }
                },
                _ => (ImportState::Finished, ImportAction::Abort),
            },
            ImportState::Products(i) => match event {
                ImportEvent::Stored => {
                    if i < langs.len() {
                        Self::product_step(langs, i + 1)
                    } else {
                        (
                            ImportState::Archiving(EdiKind::Product),
                            ImportAction::Archive(ArchiveName::Delivered),
                        )
                    }
                },
                _ => (ImportState::Finished, ImportAction::Abort),
            },
            ImportState::Prices => match event {
                ImportEvent::Stored => (
                    ImportState::Archiving(EdiKind::Price),
                    ImportAction::Archive(ArchiveName::Delivered),
                ),
                _ => (ImportState::Finished, ImportAction::Abort),
            },
            ImportState::Discounts => match event {
                ImportEvent::Stored => (
                    ImportState::Archiving(EdiKind::Discount),
                    ImportAction::Archive(ArchiveName::Discounts),
                ),
                _ => (ImportState::Finished, ImportAction::Abort),
            },
            ImportState::Archiving(kind) => match event {
                ImportEvent::Done => (
                    ImportState::Finished,
                    ImportAction::Return(Self::of(kind, true)),
                ),
                _ => (ImportState::Finished, ImportAction::Abort),
            },
            ImportState::Removing(result) => match event {
                ImportEvent::Done => (ImportState::Finished, ImportAction::Return(result)),
                _ => (ImportState::Finished, ImportAction::Abort),
            },
            ImportState::Finished => (ImportState::Finished, ImportAction::Abort),
        }
    }

    /// The outcome of an import that took the records of a file of `kind`
    /// (`taken`) or passed the file over.
    pub fn of(kind: EdiKind, taken: bool) -> (t: Self)
        ensures
            t == outcome(kind, taken),
    {
        match kind {
            EdiKind::Product => EdiType::Product(taken),
            EdiKind::Price => EdiType::Price(taken),
            EdiKind::Discount => EdiType::Discount(taken),
            EdiKind::Unrecognized => EdiType::Invalid,
        }
    }
}

/// A delivery that is on file already is passed over: once the archive
/// answers that the file is a duplicate, the file is removed and the
/// import ends with the outcome of a file that was not taken. No pass is
/// asked for, so that nothing is stored.
pub proof fn lemma_redelivery_is_skipped(kind: EdiKind, langs: Seq<Lang>)
    ensures
        import_next(
            ImportState::Comparing(kind),
            ImportEvent::Compared { duplicate: true },
            langs,
        ) == (ImportState::Removing(outcome(kind, false)), ImportAction::Delete),
        import_next(ImportState::Removing(outcome(kind, false)), ImportEvent::Done, langs) == (
            ImportState::Finished,
            ImportAction::Return(outcome(kind, false)),
        ),
{
}

/// A product file that is not on file yet is stored once for each
/// configured language, in order, each pass after the one before has
/// stored its records, and archived after the last.
pub proof fn lemma_one_pass_per_language(langs: Seq<Lang>, i: int)
    requires
        langs.len() <= usize::MAX,
    ensures
        langs.len() > 0 ==> import_next(
            ImportState::Comparing(EdiKind::Product),
            ImportEvent::Compared { duplicate: false },
            langs,
        ) == (ImportState::Products(0), ImportAction::StoreProducts(langs[0])),
        0 <= i && i + 1 < langs.len() ==> import_next(
            ImportState::Products(i as usize),
            ImportEvent::Stored,
            langs,
        ) == (ImportState::Products((i + 1) as usize), ImportAction::StoreProducts(langs[i + 1])),
        0 <= i && i + 1 == langs.len() ==> import_next(
            ImportState::Products(i as usize),
            ImportEvent::Stored,
            langs,
        ) == (
            ImportState::Archiving(EdiKind::Product),
            ImportAction::Archive(ArchiveName::Delivered),
        ),
{
}

/// A pass that fails is fatal to the import of its file: whatever the
/// kind of the file and whichever pass it is, the import ends without
/// archiving the file and without reporting an outcome.
pub proof fn lemma_failed_pass_is_fatal(state: ImportState, langs: Seq<Lang>)
    requires
        state is Products || state is Prices || state is Discounts,
    ensures
        import_next(state, ImportEvent::Failed, langs) == (
            ImportState::Finished,
            ImportAction::Abort,
        ),
        forall|event: ImportEvent| #[trigger]
            import_next(ImportState::Finished, event, langs) == (
                ImportState::Finished,
                ImportAction::Abort,
            ),
{
}

/// A file that no decoder accepts, and a file that ends with its header
/// lines, is removed and its import ends as that of an invalid file:
/// nothing is compared, stored or archived.
pub proof fn lemma_unrecognized_is_removed(lines: Seq<Seq<char>>, langs: Seq<Lang>)
    requires
        lines.len() < 3 || (product_failure(lines[2], None) is Some && price_failure(lines[2])
            is Some && discount_failure(lines[2]) is Some),
    ensures
        kind_of(lines) == EdiKind::Unrecognized,
        import_start(kind_of(lines)) == (
            ImportState::Removing(EdiType::Invalid),
            ImportAction::Delete,
        ),
        import_next(ImportState::Removing(EdiType::Invalid), ImportEvent::Done, langs) == (
            ImportState::Finished,
            ImportAction::Return(EdiType::Invalid),
        ),
{
}

/// The head line of the report on the warnings of a file; `file` is how
/// the file is shown, `count` the number of warnings.
pub open spec fn warnings_head(file: Seq<char>, count: nat) -> Seq<char> {
    "File "@ + file + " produced "@ + decimal_text(count) + " warnings:"@
}

/// One line of the report on the warnings of a file.
pub open spec fn warning_line(warning: Seq<char>) -> Seq<char> {
    "Warning: "@ + warning
}

/// The report on the warnings of a file, line by line: nothing for a file
/// without warnings, else a head line and one line for each warning.
pub open spec fn warnings_report(file: Seq<char>, warnings: Seq<Seq<char>>) -> Seq<Seq<char>> {
    if warnings.len() == 0 {
        Seq::empty()
    } else {
        seq![warnings_head(file, warnings.len())] + Seq::new(
            warnings.len(),
            |i: int| warning_line(warnings[i]),
        )
    }
}

/// Writes the report on the warnings of a file, line by line, for the
/// import log.
pub fn import_warning_lines(file: &str, warnings: &Vec<String>) -> (lines: Vec<String>)
    ensures
        lines.deep_view() == warnings_report(file@, warnings.deep_view()),
{
    let mut lines: Vec<String> = Vec::new();
    if warnings.len() == 0 {
        proof {
            assert(lines.deep_view() =~= Seq::<Seq<char>>::empty());
        }
        return lines;
    }
    let mut head = "File ".to_owned();
    head.append(file);
    head.append(" produced ");
    head.append(number_text(warnings.len() as u128).as_str());
    head.append(" warnings:");
    lines.push(head);
    let ghost wv = warnings.deep_view();
    let ghost first = seq![warnings_head(file@, wv.len())];
    let ghost rest = Seq::new(wv.len(), |i: int| warning_line(wv[i]));
    proof {
        assert(lines.deep_view() =~= first + rest.take(0));
    }
    let mut i: usize = 0;
    while i < warnings.len()
        invariant
            i <= warnings.len(),
            wv == warnings.deep_view(),
            rest == Seq::new(wv.len(), |i: int| warning_line(wv[i])),
            lines.deep_view() == first + rest.take(i as int),
        decreases warnings.len() - i,
    {
        let mut line = "Warning: ".to_owned();
        line.append(warnings[i].as_str());
        let ghost so_far = lines.deep_view();
        lines.push(line);
        proof {
            assert(wv[i as int] == warnings@[i as int]@);
            assert(lines.deep_view() =~= so_far.push(rest[i as int]));
            assert(rest.take(i + 1) =~= rest.take(i as int).push(rest[i as int]));
        }
        i = i + 1;
    }
    proof {
        assert(rest.take(warnings.len() as int) =~= rest);
    }
    lines
}

} // verus!

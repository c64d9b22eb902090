//! The positional codec: fields cut out of a line by cursor and width, and
//! the checks that a decoder runs over them from the left.

pub mod date;
pub mod discounts;
pub mod header;
pub mod import;
pub mod line;
pub mod prices;
pub mod products;
pub mod values;

pub use self::date::{date_of, date_stamp, EdiDate, malformed_date};
pub use self::import::{
    ArchiveName, classify, EdiKind, EdiType, import_next, import_start, import_warning_lines,
    ImportAction, ImportEvent, ImportState, kind_of, lemma_failed_pass_is_fatal,
    lemma_one_pass_per_language, lemma_redelivery_is_skipped, lemma_unrecognized_is_removed,
    missing_record, missing_record_error, outcome, product_pass, warning_line, warnings_head,
    warnings_report,
};
pub use self::line::{
    append_texts, contains_text, EdiLine, failed_buyer, failed_seller, file_buyer, file_seller,
    lemma_trailing_space_is_cut, lemma_trim_and_retry, line_role, line_warnings, LineKind,
    long_line_warning, read_file_buyer, read_file_seller, refused_line, refused_line_warning,
    short_line_warning, unreadable_line, unreadable_line_error,
};
pub use self::values::{
    blank_row_marker, check_row_marker, empty_field, failure_in, optional_count, optional_count_of,
    optional_text, optional_text_of, required_text, required_text_failure, row_marker_failure,
    stock_flag, stock_flag_of, weeks, weeks_of, wrong_row_marker,
};

use vstd::prelude::*;
use vstd::string::*;
use crate::error::{EdiError, EdiErrorKind, Failure};
use crate::text::{decimal_text, number_text, trim_text, trimmed};

verus! {

/// The error raised when `line` has fewer than `width` characters from
/// position `pointer` on.
pub open spec fn truncated_record(pointer: nat, width: nat, line: Seq<char>) -> Failure {
    Failure {
        kind: EdiErrorKind::TruncatedRecord,
        text: "Failed to extract ["@ + decimal_text(pointer) + "-"@ + decimal_text(width)
            + "] from line '"@ + line + "'"@,
    }
}

/// Builds the error of a field that does not fit in its line.
pub fn truncated_record_error(pointer: usize, width: usize, line: &str) -> (e: EdiError)
    ensures
        e@ == truncated_record(pointer as nat, width as nat, line@),
{
    let mut m = "Failed to extract [".to_owned();
    m.append(number_text(pointer as u128).as_str());
    m.append("-");
    m.append(number_text(width as u128).as_str());
    m.append("] from line '");
    m.append(line);
    m.append("'");
    EdiError::new(EdiErrorKind::TruncatedRecord, m)
}

/// One step of the positional decoder over the characters of a line: the
/// field of `width` characters at `pointer`, trimmed, and the cursor
/// behind it; an error when the line ends before the field does.
pub open spec fn field_step(line: Seq<char>, pointer: nat, width: nat) -> Result<
    (Seq<char>, nat),
    Failure,
> {
    if pointer + width <= line.len() {
        Ok((trimmed(line.subrange(pointer as int, (pointer + width) as int)), pointer + width))
    } else {
        Err(truncated_record(pointer, width, line))
    }
}

/// Cuts one field out of `line`: the `take_next` characters that start at
/// `pointer`, without surrounding white space, together with the cursor
/// behind the field. Fails when the line ends before the field does.
pub fn edi_line_iter(pointer: usize, line: &str, take_next: &usize) -> (r: Result<
    (String, usize),
    EdiError,
>)
    ensures
        match r {
            Ok((value, next)) => field_step(line@, pointer as nat, *take_next as nat) == Ok::<
                (Seq<char>, nat),
                Failure,
            >((value@, next as nat)),
            Err(e) => field_step(line@, pointer as nat, *take_next as nat) == Err::<
                (Seq<char>, nat),
                Failure,
            >(e@),
        },
{
    let n: usize = line.unicode_len();
    let width: usize = *take_next;
    if pointer > n || width > n - pointer {
        return Err(truncated_record_error(pointer, width, line));
    }
    let raw = line.substring_char(pointer, pointer + width);
    Ok((trim_text(raw), pointer + width))
}

/// Where field `i` of a record starts: the sum of the widths before it.
pub open spec fn offset_of(widths: Seq<usize>, i: int) -> nat
    decreases i,
{
    if i <= 0 {
        0
    } else {
        offset_of(widths, i - 1) + widths[i - 1] as nat
    }
}

/// The line length that a table of widths describes.
pub open spec fn total_width(widths: Seq<usize>) -> nat {
    offset_of(widths, widths.len() as int)
}

/// Whether `line` holds field `i` of the table in full.
pub open spec fn fits(line: Seq<char>, widths: Seq<usize>, i: int) -> bool {
    offset_of(widths, i + 1) <= line.len()
}

/// Field `i` of `line` under the table `widths`, trimmed.
pub open spec fn field_at(line: Seq<char>, widths: Seq<usize>, i: int) -> Seq<char> {
    trimmed(line.subrange(offset_of(widths, i) as int, offset_of(widths, i + 1) as int))
}

/// The error of field `i` of the table not fitting in `line`.
pub open spec fn truncated_at(line: Seq<char>, widths: Seq<usize>, i: int) -> Failure {
    truncated_record(offset_of(widths, i), widths[i] as nat, line)
}

/// Whether `fields` are the leading fields of `line` under the table
/// `widths`: every field that the line holds in full, and no other.
pub open spec fn is_split(fields: Seq<Seq<char>>, line: Seq<char>, widths: Seq<usize>) -> bool {
    &&& fields.len() <= widths.len()
    &&& forall|i: int|
        0 <= i < widths.len() ==> (i < fields.len() <==> #[trigger] fits(line, widths, i))
    &&& forall|i: int| 0 <= i < fields.len() ==> #[trigger] fields[i] == field_at(line, widths, i)
}

/// Field offsets never decrease along a table.
pub proof fn lemma_offsets_grow(widths: Seq<usize>, i: int, j: int)
    requires
        0 <= i <= j,
    ensures
        offset_of(widths, i) <= offset_of(widths, j),
    decreases j - i,
{
    if i < j {
        lemma_offsets_grow(widths, i, j - 1);
    }
}

/// Decoding the fields of a table one after the other, each from the
/// cursor that the one before returned, reaches field `i` with the cursor
/// at `offset_of(widths, i)` and leaves it at `offset_of(widths, i + 1)`;
/// it fails at the first field that the line does not hold in full.
pub proof fn lemma_cursor_advances(line: Seq<char>, widths: Seq<usize>, i: int)
    requires
        0 <= i < widths.len(),
    ensures
        fits(line, widths, i) ==> field_step(line, offset_of(widths, i), widths[i] as nat) == Ok::<
            (Seq<char>, nat),
            Failure,
        >((field_at(line, widths, i), offset_of(widths, i + 1))),
        !fits(line, widths, i) ==> field_step(line, offset_of(widths, i), widths[i] as nat) == Err::<
            (Seq<char>, nat),
            Failure,
        >(truncated_at(line, widths, i)),
        fits(line, widths, i) ==> forall|j: int| 0 <= j <= i ==> fits(line, widths, j),
{
    assert(offset_of(widths, i + 1) == offset_of(widths, i) + widths[i] as nat);
    if fits(line, widths, i) {
        assert forall|j: int| 0 <= j <= i implies fits(line, widths, j) by {
            lemma_offsets_grow(widths, j + 1, i + 1);
        }
    }
}

/// The first failure that a sequence of `n` checks meets: `at(i)` is the
/// failure of check `i`, if it fails, and a check is only reached when all
/// those before it passed.
pub open spec fn first_failure(at: spec_fn(int) -> Option<Failure>, n: int) -> Option<Failure>
    decreases n,
{
    if n <= 0 {
        None
    } else {
        match first_failure(at, n - 1) {
            Some(f) => Some(f),
            None => at(n - 1),
        }
    }
}

/// A failure, once met, is the result whatever checks follow.
pub proof fn lemma_failure_sticks(at: spec_fn(int) -> Option<Failure>, m: int, n: int)
    requires
        0 <= m <= n,
        first_failure(at, m) is Some,
    ensures
        first_failure(at, n) == first_failure(at, m),
    decreases n - m,
{
    if m < n {
        lemma_failure_sticks(at, m, n - 1);
    }
}

/// When the checks before `i` pass and check `i` fails, its failure is
/// the result of any longer sequence.
pub proof fn lemma_fails_at(at: spec_fn(int) -> Option<Failure>, i: int, n: int)
    requires
        0 <= i < n,
        first_failure(at, i) is None,
        at(i) is Some,
    ensures
        first_failure(at, n) == at(i),
{
    assert(first_failure(at, i + 1) == at(i));
    lemma_failure_sticks(at, i + 1, n);
}

/// When the checks before `i` pass and check `i` passes, so do the checks
/// before `i + 1`.
pub proof fn lemma_passes_at(at: spec_fn(int) -> Option<Failure>, i: int)
    requires
        0 <= i,
        first_failure(at, i) is None,
        at(i) is None,
    ensures
        first_failure(at, i + 1) is None,
{
}

/// When no check fails at all, every check passes.
pub proof fn lemma_all_pass(at: spec_fn(int) -> Option<Failure>, i: int, n: int)
    requires
        0 <= i < n,
        first_failure(at, n) is None,
    ensures
        at(i) is None,
        first_failure(at, i) is None,
    decreases n - i,
{
    if i + 1 < n {
        lemma_all_pass(at, i + 1, n);
    }
    if first_failure(at, i) is Some {
        lemma_failure_sticks(at, i, n);
    }
}

/// When every one of `n` checks passes, no failure is met.
pub proof fn lemma_none_fails(at: spec_fn(int) -> Option<Failure>, n: int)
    requires
        forall|i: int| 0 <= i < n ==> (#[trigger] at(i)) is None,
    ensures
        first_failure(at, n) is None,
    decreases n,
{
    if n > 0 {
        lemma_none_fails(at, n - 1);
        assert(at(n - 1) is None);
    }
}

/// What one check leaves to say: the failure of check `i`, if it is
/// reached and fails, decides every longer sequence; if it passes, the
/// checks up to it have passed.
pub proof fn lemma_check(at: spec_fn(int) -> Option<Failure>, i: int, n: int)
    requires
        0 <= i < n,
        first_failure(at, i) is None,
    ensures
        at(i) is Some ==> first_failure(at, n) == at(i),
        at(i) is None ==> first_failure(at, i + 1) is None,
{
    if at(i) is Some {
        lemma_fails_at(at, i, n);
    }
}

/// Cuts `line` into the fields of the table `widths`, from the left, and
/// stops before the first field that the line does not hold in full.
pub fn split_fields(line: &str, widths: &[usize]) -> (fields: Vec<String>)
    ensures
        is_split(fields.deep_view(), line@, widths@),
{
    let mut fields: Vec<String> = Vec::new();
    let mut pointer: usize = 0;
    let mut i: usize = 0;
    while i < widths.len()
        invariant
            i <= widths.len(),
            fields.len() == i,
            pointer == offset_of(widths@, i as int),
            pointer <= line@.len(),
            forall|j: int| 0 <= j < i ==> #[trigger] fits(line@, widths@, j),
            forall|j: int|
                0 <= j < i ==> (#[trigger] fields.deep_view()[j]) == field_at(line@, widths@, j),
        decreases widths.len() - i,
    {
        let w: usize = widths[i];
        proof {
            lemma_cursor_advances(line@, widths@, i as int);
        }
        match edi_line_iter(pointer, line, &w) {
            Ok((value, next)) => {
                let ghost before = fields.deep_view();
                fields.push(value);
                proof {
                    assert forall|j: int| 0 <= j < i + 1 implies (#[trigger] fields.deep_view()[j])
                        == field_at(line@, widths@, j) by {
                        if j < i {
                            assert(fields.deep_view()[j] == before[j]);
                        }
                    }
                }
                pointer = next;
                i = i + 1;
            },
            Err(_) => {
                proof {
                    assert forall|j: int| 0 <= j < widths@.len() implies (j < fields.deep_view().len()
                        <==> #[trigger] fits(line@, widths@, j)) by {
                        if j >= i && fits(line@, widths@, j) {
                            lemma_cursor_advances(line@, widths@, j);
                        }
                    }
                }
                return fields;
            },
        }
    }
    fields
}

/// Field `i` of a line that was cut by `split_fields`, or the error of the
/// line ending before that field. The fields are asked for from the left:
/// those before `i` are there.
pub fn field<'a>(fields: &'a Vec<String>, i: usize, line: &str, widths: &[usize]) -> (r: Result<
    &'a str,
    EdiError,
>)
    requires
        is_split(fields.deep_view(), line@, widths@),
        i < widths.len(),
        i <= fields.len(),
    ensures
        match r {
            Ok(value) => fits(line@, widths@, i as int) && value@ == field_at(
                line@,
                widths@,
                i as int,
            ),
            Err(e) => !fits(line@, widths@, i as int) && e@ == truncated_at(
                line@,
                widths@,
                i as int,
            ),
        },
{
    if i < fields.len() {
        proof {
            assert(fits(line@, widths@, i as int));
            assert(fields.deep_view()[i as int] == field_at(line@, widths@, i as int));
        }
        return Ok(fields[i].as_str());
    }
    proof {
        assert(!fits(line@, widths@, i as int));
        if i > 0 {
            assert(fits(line@, widths@, i - 1));
        }
    }
    let n: usize = line.unicode_len();
    let mut pointer: usize = 0;
    let mut k: usize = 0;
    while k < i
        invariant
            k <= i < widths.len(),
            pointer == offset_of(widths@, k as int),
            offset_of(widths@, i as int) <= line@.len(),
            line@.len() == n,
        decreases i - k,
    {
        proof {
            lemma_offsets_grow(widths@, k + 1, i as int);
        }
        pointer = pointer + widths[k];
        k = k + 1;
    }
    Err(truncated_record_error(pointer, widths[i], line))
}

/// The error of a table whose widths do not add up to the documented
/// length of its lines.
pub open spec fn schema_failure() -> Failure {
    Failure {
        kind: EdiErrorKind::SchemaSelfCheckFailed,
        text: "Field widths do not add up to the documented line length."@,
    }
}

/// Checks that the widths of a table add up to `total`.
pub fn check_widths(widths: &[usize], total: usize) -> (r: Result<(), EdiError>)
    ensures
        match r {
            Ok(_) => total_width(widths@) == total,
            Err(e) => total_width(widths@) != total && e@ == schema_failure(),
        },
{
    let mut sum: usize = 0;
    let mut i: usize = 0;
    while i < widths.len()
        invariant
            i <= widths.len(),
            sum == offset_of(widths@, i as int),
            sum <= total,
        decreases widths.len() - i,
    {
        if widths[i] > total - sum {
            proof {
                lemma_offsets_grow(widths@, i + 1, widths@.len() as int);
            }
            return Err(
                EdiError::with_text(
                    EdiErrorKind::SchemaSelfCheckFailed,
                    "Field widths do not add up to the documented line length.",
                ),
            );
        }
        sum = sum + widths[i];
        i = i + 1;
    }
    if sum != total {
        return Err(
            EdiError::with_text(
                EdiErrorKind::SchemaSelfCheckFailed,
                "Field widths do not add up to the documented line length.",
            ),
        );
    }
    Ok(())
}

} // verus!

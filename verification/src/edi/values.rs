//! What single fields hold: markers, texts, counts and flags, each with
//! the failure of a field that does not hold it.

use vstd::prelude::*;
use vstd::string::*;
use crate::edi::field;
use crate::error::{EdiError, EdiErrorKind, Failure};
use crate::number::{bad_integer, bad_integer_error, integer_of, parse_i32, parse_i64};
use crate::text::same_text;

verus! {

/// The failure in a result, if it is one.
pub open spec fn failure_in<T>(r: Result<T, Failure>) -> Option<Failure> {
    match r {
        Ok(_) => None,
        Err(f) => Some(f),
    }
}

/// The error of an entry line whose marker field is blank.
pub open spec fn blank_row_marker() -> Failure {
    Failure {
        kind: EdiErrorKind::InvalidRowMarker,
        text: "Trying to extract row id from pointer with invalid length."@,
    }
}

/// The error of an entry line whose marker is not `R`.
pub open spec fn wrong_row_marker(found: Seq<char>) -> Failure {
    Failure {
        kind: EdiErrorKind::InvalidRowMarker,
        text: "Row identifier is fixed 'R', found '"@ + found + "'"@,
    }
}

/// Why the marker field of an entry line is refused, if it is: it must
/// read `R`.
pub open spec fn row_marker_failure(value: Seq<char>) -> Option<Failure> {
    if value.len() != 1 {
        Some(blank_row_marker())
    } else if value != "R"@ {
        Some(wrong_row_marker(value))
    } else {
        None
    }
}

/// Checks the marker field of an entry line.
pub fn check_row_marker(value: &str) -> (r: Result<(), EdiError>)
    ensures
        match r {
            Ok(_) => row_marker_failure(value@) is None,
            Err(e) => row_marker_failure(value@) == Some(e@),
        },
{
    if value.unicode_len() != 1 {
        return Err(
            EdiError::with_text(
                EdiErrorKind::InvalidRowMarker,
                "Trying to extract row id from pointer with invalid length.",
            ),
        );
    }
    if !same_text(value, "R") {
        return Err(
            EdiError::quoting(
                EdiErrorKind::InvalidRowMarker,
                "Row identifier is fixed 'R', found '",
                value,
                "'",
            ),
        );
    }
    Ok(())
}

/// The error of a blank field that must hold text; `message` names the
/// field.
pub open spec fn empty_field(message: Seq<char>) -> Failure {
    Failure { kind: EdiErrorKind::EmptyRequiredField, text: message }
}

/// Why a field that must hold text is refused, if it is.
pub open spec fn required_text_failure(value: Seq<char>, message: Seq<char>) -> Option<Failure> {
    if value.len() == 0 {
        Some(empty_field(message))
    } else {
        None
    }
}

/// Takes the text of a field that must not be blank; `message` is the
/// error to give when it is.
pub fn required_text(value: &str, message: &str) -> (r: Result<String, EdiError>)
    ensures
        match r {
            Ok(s) => required_text_failure(value@, message@) is None && s@ == value@,
            Err(e) => required_text_failure(value@, message@) == Some(e@),
        },
{
    if value.unicode_len() == 0 {
        return Err(EdiError::with_text(EdiErrorKind::EmptyRequiredField, message));
    }
    Ok(value.to_owned())
}

/// The content of a field that may be blank: nothing when it is.
pub open spec fn optional_text_of(value: Seq<char>) -> Option<Seq<char>> {
    if value.len() == 0 {
        None
    } else {
        Some(value)
    }
}

/// Takes the text of a field that may be blank.
pub fn optional_text(value: &str) -> (r: Option<String>)
    ensures
        r.deep_view() == optional_text_of(value@),
{
    if value.unicode_len() == 0 {
        None
    } else {
        Some(value.to_owned())
    }
}

/// The stock flag that a marker field stands for: `E` marks an item that
/// is not kept in stock, anything else says nothing.
pub open spec fn stock_flag_of(value: Seq<char>) -> Option<bool> {
    if value == "E"@ {
        Some(false)
    } else {
        None
    }
}

/// Reads the stock flag of a marker field.
pub fn stock_flag(value: &str) -> (r: Option<bool>)
    ensures
        r == stock_flag_of(value@),
{
    if same_text(value, "E") {
        Some(false)
    } else {
        None
    }
}

/// The count that an optional integer field holds: nothing when blank.
pub open spec fn optional_count_of(value: Seq<char>) -> Result<Option<int>, Failure> {
    if value.len() == 0 {
        Ok(None)
    } else {
        match integer_of(value, i64::MIN as int, i64::MAX as int) {
            Ok(v) => Ok(Some(v)),
            Err(fault) => Err(bad_integer(value, fault)),
        }
    }
}

/// Reads an optional integer field.
pub fn optional_count(value: &str) -> (r: Result<Option<i64>, EdiError>)
    ensures
        match r {
            Ok(Some(v)) => optional_count_of(value@) == Ok::<Option<int>, Failure>(Some(v as int)),
            Ok(None) => optional_count_of(value@) == Ok::<Option<int>, Failure>(None),
            Err(e) => optional_count_of(value@) == Err::<Option<int>, Failure>(e@),
        },
{
    if value.unicode_len() == 0 {
        return Ok(None);
    }
    match parse_i64(value) {
        Ok(v) => Ok(Some(v)),
        Err(fault) => Err(bad_integer_error(value, fault)),
    }
}

/// The delivery time in weeks that a field holds: nothing when the field
/// is blank, or reads `skip`, or holds a number that is not positive.
/// `skip` empty means that only a blank field is passed over unread.
pub open spec fn weeks_of(value: Seq<char>, skip: Seq<char>) -> Result<Option<int>, Failure> {
    if value.len() == 0 || (skip.len() > 0 && value == skip) {
        Ok(None)
    } else {
        match integer_of(value, i32::MIN as int, i32::MAX as int) {
            Ok(v) => if v > 0 {
                Ok(Some(v))
            } else {
                Ok(None)
            },
            Err(fault) => Err(bad_integer(value, fault)),
        }
    }
}

/// Reads a delivery time in weeks.
pub fn weeks(value: &str, skip: &str) -> (r: Result<Option<i32>, EdiError>)
    ensures
        match r {
            Ok(Some(v)) => weeks_of(value@, skip@) == Ok::<Option<int>, Failure>(Some(v as int)),
            Ok(None) => weeks_of(value@, skip@) == Ok::<Option<int>, Failure>(None),
            Err(e) => weeks_of(value@, skip@) == Err::<Option<int>, Failure>(e@),
        },
{
    if value.unicode_len() == 0 {
        return Ok(None);
    }
    if skip.unicode_len() > 0 && same_text(value, skip) {
        return Ok(None);
    }
    match parse_i32(value) {
        Ok(v) => if v > 0 {
            Ok(Some(v))
        } else {
            Ok(None)
        },
        Err(fault) => Err(bad_integer_error(value, fault)),
    }
}

} // verus!

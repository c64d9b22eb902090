//! Dates as the interchange format writes them.

use vstd::prelude::*;
use vstd::string::*;
use crate::error::{EdiError, EdiErrorKind, Failure};

verus! {

/// A date as the interchange format writes it: eight characters, cut
/// into year, month and day without looking at what they hold.
#[derive(Debug, Clone, PartialEq, Eq)]
pub struct EdiDate {
    pub year: String,
    pub month: String,
    pub day: String,
}

impl View for EdiDate {
    type V = (Seq<char>, Seq<char>, Seq<char>);

    open spec fn view(&self) -> (Seq<char>, Seq<char>, Seq<char>) {
        (self.year@, self.month@, self.day@)
    }
}

/// The error for a date token of the wrong length.
pub open spec fn malformed_date() -> Failure {
    Failure {
        kind: EdiErrorKind::MalformedDate,
        text: "Date value should be in format 'yyyymmdd'. String 8 chars long that is."@,
    }
}

/// Year, month and day of an eight-character token; `None` for any other
/// length.
pub open spec fn date_of(val: Seq<char>) -> Option<(Seq<char>, Seq<char>, Seq<char>)> {
    if val.len() == 8 {
        Some((val.subrange(0, 4), val.subrange(4, 6), val.subrange(6, 8)))
    } else {
        None
    }
}

/// The text under which a date is stored: `year-month-day` at midnight.
pub open spec fn date_stamp(d: (Seq<char>, Seq<char>, Seq<char>)) -> Seq<char> {
    d.0 + "-"@ + d.1 + "-"@ + d.2 + " 00:00:00.000"@
}

impl EdiDate {
    /// The date with all three parts empty.
    pub fn new() -> (d: Self)
        ensures
            d@ == (Seq::<char>::empty(), Seq::<char>::empty(), Seq::<char>::empty()),
    {
        Self { year: String::new(), month: String::new(), day: String::new() }
    }

    /// Cuts a `yyyymmdd` token into its three parts.
    pub fn from_string(val: String) -> (r: Result<Self, EdiError>)
        ensures
            match r {
                Ok(d) => date_of(val@) == Some(d@),
                Err(e) => date_of(val@) is None && e@ == malformed_date(),
            },
    {
        let s = val.as_str();
        if s.unicode_len() != 8 {
            return Err(
                EdiError::with_text(
                    EdiErrorKind::MalformedDate,
                    "Date value should be in format 'yyyymmdd'. String 8 chars long that is.",
                ),
            );
        }
        Ok(
            Self {
                year: s.substring_char(0, 4).to_owned(),
                month: s.substring_char(4, 6).to_owned(),
                day: s.substring_char(6, 8).to_owned(),
            },
        )
    }

    /// The text under which the date is stored.
    pub fn stamp(&self) -> (s: String)
        ensures
            s@ == date_stamp(self@),
    {
        let mut s = self.year.clone();
        s.append("-");
        s.append(self.month.as_str());
        s.append("-");
        s.append(self.day.as_str());
        s.append(" 00:00:00.000");
        s
    }
}

} // verus!

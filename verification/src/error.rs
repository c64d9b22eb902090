//! The error type shared by every decoder and import rule.

use vstd::prelude::*;

verus! {

/// What went wrong, by class.
#[derive(Debug, Clone, Copy, PartialEq, Eq, Structural)]
pub enum EdiErrorKind {
    /// A line ends before a field does.
    TruncatedRecord,
    /// A packed number is not made of decimal digits, or is too short.
    MalformedNumber,
    /// A date token is not eight characters long.
    MalformedDate,
    /// A line does not start with the marker of its kind.
    InvalidRowMarker,
    /// A header names neither a seller nor a buyer, or a party without a
    /// home directory was asked for one.
    InvalidOwnership,
    /// A category letter outside the known set.
    InvalidCategory,
    /// An operation digit outside the known set.
    InvalidOperation,
    /// A language name outside the known set.
    InvalidLanguage,
    /// A product line in another language than the one asked for.
    LanguageMismatch,
    /// A field that must hold text is blank.
    EmptyRequiredField,
    /// A field-width table does not add up to its documented line length.
    SchemaSelfCheckFailed,
    /// A line of the source could not be read as text.
    UnreadableLine,
    /// A file holds no line after its two header lines.
    MissingRecord,
    /// A file lacks the header line of the party it is filed under.
    MissingParty,
    /// The configuration asks for what cannot be served.
    InvalidConfiguration,
}

/// The mathematical content of an error: its class and its message.
pub struct Failure {
    pub kind: EdiErrorKind,
    pub text: Seq<char>,
}

/// A decoding or import error with the message shown to the operator.
#[derive(Debug, Clone, PartialEq, Eq)]
pub struct EdiError {
    pub kind: EdiErrorKind,
    pub message: String,
}

impl View for EdiError {
    type V = Failure;

    open spec fn view(&self) -> Failure {
        Failure { kind: self.kind, text: self.message@ }
    }
}

impl EdiError {
    /// An error of class `kind` that reads `message`.
    pub fn new(kind: EdiErrorKind, message: String) -> (e: Self)
        ensures
            e@ == (Failure { kind, text: message@ }),
    {
        EdiError { kind, message }
    }

    /// An error of class `kind` whose message is `message`.
    pub fn with_text(kind: EdiErrorKind, message: &str) -> (e: Self)
        ensures
            e@ == (Failure { kind, text: message@ }),
    {
        EdiError { kind, message: message.to_owned() }
    }

    /// An error of class `kind` whose message quotes `value` between
    /// `before` and `after`.
    pub fn quoting(kind: EdiErrorKind, before: &str, value: &str, after: &str) -> (e: Self)
        ensures
            e@ == (Failure { kind, text: before@ + value@ + after@ }),
    {
        let mut message = before.to_owned();
        message.append(value);
        message.append(after);
        EdiError { kind, message }
    }

    /// The same error under a longer message: `prefix` put before it.
    pub fn prefixed(self, prefix: &str) -> (e: Self)
        ensures
            e@ == (Failure { kind: self.kind, text: prefix@ + self.message@ }),
    {
        let mut message = prefix.to_owned();
        message.append(self.message.as_str());
        EdiError { kind: self.kind, message }
    }
}

} // verus!

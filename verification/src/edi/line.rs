//! The lines of a file: the role that its position gives a line, the
//! warnings of its length, and the parties that the header lines name.

use vstd::prelude::*;
use vstd::string::*;
use crate::edi::header::{EdiParty, party_created};
use crate::error::{EdiError, EdiErrorKind, Failure};
use crate::text::{
    byte_len, decimal_text, is_blank, lemma_trimmed_end, lemma_trimmed_is_tight, number_text,
    same_text, trim_end_text, trim_text, trimmed_end,
};

verus! {

/// The role of a line, given by its position in the file.
#[derive(Debug, Clone, Copy, PartialEq, Eq, Structural)]
pub enum LineKind {
    Buyer,
    Seller,
    Entry,
}

/// A line of an interchange file with the role its position gives it: the
/// first line is the buyer header, the second the seller header, every
/// later one an entry.
#[derive(Debug, Clone, PartialEq, Eq)]
pub enum EdiLine {
    Buyer(String),
    Seller(String),
    Entry(String),
}

impl View for EdiLine {
    type V = (LineKind, Seq<char>);

    open spec fn view(&self) -> (LineKind, Seq<char>) {
        match self {
            EdiLine::Buyer(s) => (LineKind::Buyer, s@),
            EdiLine::Seller(s) => (LineKind::Seller, s@),
            EdiLine::Entry(s) => (LineKind::Entry, s@),
        }
    }
}

impl DeepView for EdiLine {
    type V = (LineKind, Seq<char>);

    open spec fn deep_view(&self) -> (LineKind, Seq<char>) {
        self@
    }
}

/// The warning for an entry line shorter than its record kind asks for.
pub open spec fn short_line_warning(i: nat, line: Seq<char>, reqlen: nat) -> Seq<char> {
    "Line: "@ + decimal_text(i + 1) + ", length "@ + decimal_text(byte_len(line))
        + " is smaller than the expected length "@ + decimal_text(reqlen)
}

/// The warning for an entry line that is too long even without its
/// trailing white space; `trimmed_line` is the line without that white
/// space.
pub open spec fn long_line_warning(i: nat, trimmed_line: Seq<char>, reqlen: nat) -> Seq<char> {
    "Skipping line "@ + decimal_text(i + 1) + ", length "@ + decimal_text(byte_len(trimmed_line))
        + " is greater than expexted "@ + decimal_text(reqlen) + " ("@ + trimmed_line + ")"@
}

/// The error for a line that could not be read; `detail` is what the
/// reader reported.
pub open spec fn unreadable_line(i: nat, detail: Seq<char>) -> Failure {
    Failure {
        kind: EdiErrorKind::UnreadableLine,
        text: "Line "@ + decimal_text(i + 1) + ", Unable to read as text string: "@ + detail,
    }
}

/// What the line at position `i` (from zero) is taken for, when a record
/// needs `reqlen` characters: nothing for a blank line, a header for the
/// first two positions, else an entry. An entry longer than `reqlen` is
/// taken without its trailing white space, and dropped when it is still
/// too long.
pub open spec fn line_role(s: Seq<char>, i: nat, reqlen: nat) -> Option<(LineKind, Seq<char>)> {
    if is_blank(s) {
        None
    } else if i == 0 {
        Some((LineKind::Buyer, s))
    } else if i == 1 {
        Some((LineKind::Seller, s))
    } else if s.len() <= reqlen {
        Some((LineKind::Entry, s))
    } else if trimmed_end(s).len() > reqlen {
        None
    } else {
        Some((LineKind::Entry, trimmed_end(s)))
    }
}

/// The warnings that come with the line at position `i`: one for an entry
/// that is too short, one for an entry that is dropped as too long.
pub open spec fn line_warnings(s: Seq<char>, i: nat, reqlen: nat) -> Seq<Seq<char>> {
    if is_blank(s) || i < 2 || s.len() == reqlen {
        seq![]
    } else if s.len() < reqlen {
        seq![short_line_warning(i, s, reqlen)]
    } else if trimmed_end(s).len() > reqlen {
        seq![long_line_warning(i, trimmed_end(s), reqlen)]
    } else {
        seq![]
    }
}

/// The error of a failed read, `std::io::Error`, carried through as an
/// opaque value.
#[verifier::external_type_specification]
#[verifier::external_body]
pub struct ExIoError(std::io::Error);

/// The words of a reader's error.
///
/// Wraps the `Display` form of `std::io::Error`; nothing is claimed of
/// the text.
#[verifier::external_body]
fn io_error_text(e: &std::io::Error) -> String {
    format!("{}", e)
}

/// Builds the error for a line that could not be read.
pub fn unreadable_line_error(i: usize, detail: &str) -> (e: EdiError)
    ensures
        e@ == unreadable_line(i as nat, detail@),
{
    let mut m = "Line ".to_owned();
    m.append(number_text(i as u128 + 1).as_str());
    m.append(", Unable to read as text string: ");
    m.append(detail);
    EdiError::new(EdiErrorKind::UnreadableLine, m)
}

impl EdiLine {
    /// Takes the line read at position `i` (from zero) of a file whose
    /// records need `reqlen` characters, and says what it is and which
    /// warnings it raises. A line that could not be read is an error; a
    /// blank line, or an entry too long to be a record, is skipped.
    pub fn line_read(read: Result<String, std::io::Error>, i: usize, reqlen: usize) -> (r: Result<
        (Option<Self>, Vec<String>),
        EdiError,
    >)
        ensures
            match read {
                Ok(s) => r matches Ok((line, warnings)) && line.deep_view() == line_role(
                    s@,
                    i as nat,
                    reqlen as nat,
                ) && warnings.deep_view() == line_warnings(s@, i as nat, reqlen as nat),
                Err(_) => r matches Err(e) && exists|detail: Seq<char>|
                    e@ == unreadable_line(i as nat, detail),
            },
    {
        let s = match read {
            Ok(s) => s,
            Err(e) => {
                let detail = io_error_text(&e);
                return Err(unreadable_line_error(i, detail.as_str()));
            },
        };
        Ok(Self::line_role_of(s, i, reqlen))
    }

    /// What the text `s`, found at position `i` of a file whose records
    /// need `reqlen` characters, is taken for, with its warnings.
    pub fn line_role_of(s: String, i: usize, reqlen: usize) -> (r: (Option<Self>, Vec<String>))
        ensures
            r.0.deep_view() == line_role(s@, i as nat, reqlen as nat),
            r.1.deep_view() == line_warnings(s@, i as nat, reqlen as nat),
    {
        let mut warnings: Vec<String> = Vec::new();
        let cl = trim_end_text(s.as_str());
        proof {
            lemma_trimmed_end(s@);
            assert(warnings.deep_view() =~= Seq::<Seq<char>>::empty());
        }
        if cl.as_str().unicode_len() == 0 {
            return (None, warnings);
        }
        if i == 0 {
            return (Some(EdiLine::Buyer(s)), warnings);
        }
        if i == 1 {
            return (Some(EdiLine::Seller(s)), warnings);
        }
        let linelen: usize = s.as_str().unicode_len();
        if linelen < reqlen {
            let mut w = "Line: ".to_owned();
            w.append(number_text(i as u128 + 1).as_str());
            w.append(", length ");
            w.append(number_text(s.as_str().as_bytes().len() as u128).as_str());
            w.append(" is smaller than the expected length ");
            w.append(number_text(reqlen as u128).as_str());
            warnings.push(w);
            proof {
                assert(warnings.deep_view() =~= seq![
                    short_line_warning(i as nat, s@, reqlen as nat),
                ]);
            }
            return (Some(EdiLine::Entry(s)), warnings);
        }
        if linelen > reqlen {
            if cl.as_str().unicode_len() > reqlen {
                let mut w = "Skipping line ".to_owned();
                w.append(number_text(i as u128 + 1).as_str());
                w.append(", length ");
                w.append(number_text(cl.as_str().as_bytes().len() as u128).as_str());
                w.append(" is greater than expexted ");
                w.append(number_text(reqlen as u128).as_str());
                w.append(" (");
                w.append(cl.as_str());
                w.append(")");
                warnings.push(w);
                proof {
                    assert(warnings.deep_view() =~= seq![
                        long_line_warning(i as nat, trimmed_end(s@), reqlen as nat),
                    ]);
                }
                return (None, warnings);
            }
            return (Some(EdiLine::Entry(cl)), warnings);
        }
        (Some(EdiLine::Entry(s)), warnings)
    }
}

/// Trim and retry: an entry line that is too long, but only by its
/// trailing white space, is taken without that white space and raises no
/// warning; one that is too long without it is dropped with a warning and
/// is no error.
pub proof fn lemma_trim_and_retry(s: Seq<char>, i: nat, reqlen: nat)
    requires
        i >= 2,
        s.len() > reqlen,
        !is_blank(s),
    ensures
        trimmed_end(s).len() <= reqlen ==> line_role(s, i, reqlen) == Some(
            (LineKind::Entry, trimmed_end(s)),
        ) && line_warnings(s, i, reqlen) == Seq::<Seq<char>>::empty(),
        trimmed_end(s).len() > reqlen ==> line_role(s, i, reqlen) is None && line_warnings(
            s,
            i,
            reqlen,
        ) == seq![long_line_warning(i, trimmed_end(s), reqlen)],
{
}

/// A line that is `k` characters too long and ends in `k` characters of
/// white space is taken as an entry; one that is too long and does not end
/// in white space is dropped.
pub proof fn lemma_trailing_space_is_cut(s: Seq<char>, i: nat, reqlen: nat, k: nat)
    requires
        i >= 2,
        k > 0,
        s.len() == reqlen + k,
        !is_blank(s),
    ensures
        (forall|j: int| reqlen <= j < s.len() ==> crate::text::is_space(#[trigger] s[j])) ==> (
        line_role(s, i, reqlen) matches Some(found) && found.0 == LineKind::Entry && found.1.len()
            <= reqlen),
        !crate::text::is_space(s.last()) ==> line_role(s, i, reqlen) is None,
{
    crate::text::lemma_trailing_spaces(s);
    let t = crate::text::trailing_spaces(s);
    if forall|j: int| reqlen <= j < s.len() ==> crate::text::is_space(#[trigger] s[j]) {
        if t < k {
            assert(crate::text::is_space(s[s.len() - t - 1]));
        }
    }
}

/// The warning of an entry line that does not decode; `what` names the
/// kind of record that was looked for.
pub open spec fn refused_line(what: Seq<char>, cause: Failure, i: nat) -> Seq<char> {
    what + " read error '"@ + cause.text + "', line: "@ + decimal_text(i + 1)
}

/// Writes the warning of an entry line that does not decode.
pub fn refused_line_warning(what: &str, cause: &EdiError, i: usize) -> (w: String)
    ensures
        w@ == refused_line(what@, cause@, i as nat),
{
    let mut w = what.to_owned();
    w.append(" read error '");
    w.append(cause.message.as_str());
    w.append("', line: ");
    w.append(number_text(i as u128 + 1).as_str());
    w
}

/// The error of a file whose seller header does not decode.
pub open spec fn failed_seller(cause: Failure) -> Failure {
    Failure { kind: cause.kind, text: "Failed to create seller dir: "@ + cause.text }
}

/// The seller that a file names in its second line: the seller's home, as
/// path components below the root directory, and identifier. A file
/// without second line, or with a blank one, names none: both are empty
/// then.
pub open spec fn file_seller(lines: Seq<Seq<char>>) -> Result<
    (Seq<Seq<char>>, Seq<char>),
    Failure,
> {
    if lines.len() < 2 || is_blank(lines[1]) {
        Ok((Seq::empty(), Seq::empty()))
    } else {
        match party_created(lines[1]) {
            Ok(found) => Ok(found),
            Err(f) => Err(failed_seller(f)),
        }
    }
}

/// Reads the seller that a file names in its second line.
pub fn read_file_seller(lines: &Vec<String>) -> (r: Result<(Vec<String>, String), EdiError>)
    ensures
        match r {
            Ok((dir, id)) => file_seller(lines.deep_view()) == Ok::<
                (Seq<Seq<char>>, Seq<char>),
                Failure,
            >((dir.deep_view(), id@)),
            Err(e) => file_seller(lines.deep_view()) == Err::<(Seq<Seq<char>>, Seq<char>), Failure>(
                e@,
            ),
        },
{
    if lines.len() >= 2 {
        proof {
            assert(lines.deep_view()[1] == lines@[1]@);
            lemma_trimmed_is_tight(lines@[1]@);
        }
        if trim_text(lines[1].as_str()).as_str().unicode_len() > 0 {
            return match EdiParty::create(lines[1].clone()) {
                Ok(found) => Ok(found),
                Err(e) => Err(e.prefixed("Failed to create seller dir: ")),
            };
        }
    }
    let dir: Vec<String> = Vec::new();
    proof {
        assert(dir.deep_view() =~= Seq::<Seq<char>>::empty());
    }
    Ok((dir, String::new()))
}

/// Moves the texts of `more` to the end of `all`.
pub fn append_texts(all: &mut Vec<String>, more: Vec<String>)
    ensures
        final(all).deep_view() == old(all).deep_view() + more.deep_view(),
{
    let mut rest = more;
    all.append(&mut rest);
    proof {
        assert(all.deep_view() =~= old(all).deep_view() + more.deep_view());
    }
}

/// The error of a file whose buyer header does not decode.
pub open spec fn failed_buyer(cause: Failure) -> Failure {
    Failure { kind: cause.kind, text: "Failed to read buyer from header: "@ + cause.text }
}

/// The identifier of the buyer that a file names in its first line;
/// empty for a file without lines or with a blank first line.
pub open spec fn file_buyer(lines: Seq<Seq<char>>) -> Result<Seq<char>, Failure> {
    if lines.len() < 1 || is_blank(lines[0]) {
        Ok(Seq::empty())
    } else {
        match party_created(lines[0]) {
            Ok(found) => Ok(found.1),
            Err(f) => Err(failed_buyer(f)),
        }
    }
}

/// Reads the identifier of the buyer that a file names in its first line.
pub fn read_file_buyer(lines: &Vec<String>) -> (r: Result<String, EdiError>)
    ensures
        match r {
            Ok(id) => file_buyer(lines.deep_view()) == Ok::<Seq<char>, Failure>(id@),
            Err(e) => file_buyer(lines.deep_view()) == Err::<Seq<char>, Failure>(e@),
        },
{
    if lines.len() >= 1 {
        proof {
            assert(lines.deep_view()[0] == lines@[0]@);
            lemma_trimmed_is_tight(lines@[0]@);
        }
        if trim_text(lines[0].as_str()).as_str().unicode_len() > 0 {
            return match EdiParty::create(lines[0].clone()) {
                Ok((_, id)) => Ok(id),
                Err(e) => Err(e.prefixed("Failed to read buyer from header: ")),
            };
        }
    }
    Ok(String::new())
}

/// Tells whether `list` holds the text `x`.
pub fn contains_text(list: &Vec<String>, x: &str) -> (r: bool)
    ensures
        r == list.deep_view().contains(x@),
{
    let mut i: usize = 0;
    while i < list.len()
        invariant
            i <= list.len(),
            forall|j: int| 0 <= j < i ==> list.deep_view()[j] != x@,
        decreases list.len() - i,
    {
        proof {
            assert(list.deep_view()[i as int] == list@[i as int]@);
        }
        if same_text(list[i].as_str(), x) {
            return true;
        }
        i = i + 1;
    }
    false
}

} // verus!

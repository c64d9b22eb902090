//! What is decided about a source file as a whole: its text encoding, its
//! clean-up, and whether it is a delivery that is on file already.

use vstd::prelude::*;
use vstd::string::*;
use encoding::{DecoderTrap, Encoding};
use encoding::all::{ISO_8859_1, UTF_8};
use crate::edi::header::{EdiHeader, EdiOwnership, header_of, HeaderView, party_home, PartyView};
use crate::error::{EdiError, EdiErrorKind, Failure};

verus! {

/// Tells whether `bytes` are well-formed UTF-8.
///
/// Wraps `encoding::all::UTF_8.decode` with the strict trap, which scans
/// the bytes with a state machine for well-formed UTF-8 and fails on the
/// first byte that does not fit, or on a sequence cut short at the end.
#[verifier::external_body]
fn decodes_as_utf8(bytes: &[u8]) -> (ok: bool)
    ensures
        ok == vstd::utf8::valid_utf8(bytes@),
{
    UTF_8.decode(bytes, DecoderTrap::Strict).is_ok()
}

/// The text that `bytes` encode in ISO 8859-1: each byte is the character
/// of the same code point.
pub open spec fn latin1_text(bytes: Seq<u8>) -> Seq<char> {
    Seq::new(bytes.len(), |i: int| bytes[i] as char)
}

/// Decodes `bytes` as ISO 8859-1.
///
/// Wraps `encoding::all::ISO_8859_1.decode` with the strict trap. The
/// codec maps every byte to the character of the same code point, so no
/// input is refused; should the call fail all the same, the text is empty.
#[verifier::external_body]
fn decode_latin1(bytes: &[u8]) -> (text: String)
    ensures
        text@ == latin1_text(bytes@),
{
    ISO_8859_1.decode(bytes, DecoderTrap::Strict).unwrap_or_default()
}

/// A source file in the one text encoding that the decoders read.
#[derive(Debug, Clone, PartialEq, Eq)]
pub enum Transcoded {
    /// The file is UTF-8 as it stands.
    Unchanged,
    /// The file was ISO 8859-1; this is its text.
    Converted(String),
}

/// Brings the bytes of a source file to UTF-8: a file that is well-formed
/// UTF-8 stays as it is, any other is read as ISO 8859-1.
pub fn transcode(bytes: &[u8]) -> (r: Transcoded)
    ensures
        match r {
            Transcoded::Unchanged => vstd::utf8::valid_utf8(bytes@),
            Transcoded::Converted(text) => !vstd::utf8::valid_utf8(bytes@) && text@ == latin1_text(
                bytes@,
            ),
        },
{
    if decodes_as_utf8(bytes) {
        Transcoded::Unchanged
    } else {
        Transcoded::Converted(decode_latin1(bytes))
    }
}

/// The lines of `lines` that are not empty, in order.
pub open spec fn without_empty(lines: Seq<Seq<char>>) -> Seq<Seq<char>>
    decreases lines.len(),
{
    if lines.len() == 0 {
        lines
    } else if lines.last().len() > 0 {
        without_empty(lines.drop_last()).push(lines.last())
    } else {
        without_empty(lines.drop_last())
    }
}

/// The error of a cleaned file whose header does not decode.
pub open spec fn bad_clean_header(cause: Failure) -> Failure {
    Failure { kind: cause.kind, text: "Cleaned up EDI file has invalid header: "@ + cause.text }
}

/// Removes the empty lines of a file and checks that what is left starts
/// with a header that decodes.
pub fn edifile_cleanup(lines: Vec<String>) -> (r: Result<Vec<String>, EdiError>)
    ensures
        match r {
            Ok(kept) => kept.deep_view() == without_empty(lines.deep_view()) && header_of(
                without_empty(lines.deep_view()),
            ) is Ok,
            Err(e) => header_of(without_empty(lines.deep_view())) matches Err(f) && e@
                == bad_clean_header(f),
        },
{
    let ghost dv = lines.deep_view();
    let mut kept: Vec<String> = Vec::new();
    let mut i: usize = 0;
    proof {
        assert(kept.deep_view() =~= without_empty(dv.take(0)));
    }
    while i < lines.len()
        invariant
            i <= lines.len(),
            dv == lines.deep_view(),
            kept.deep_view() == without_empty(dv.take(i as int)),
        decreases lines.len() - i,
    {
        proof {
            assert(dv[i as int] == lines@[i as int]@);
            assert(dv.take(i + 1).drop_last() =~= dv.take(i as int));
        }
        if lines[i].as_str().unicode_len() > 0 {
            let ghost so_far = kept.deep_view();
            kept.push(lines[i].clone());
            proof {
                assert(kept.deep_view() =~= so_far.push(dv[i as int]));
            }
        }
        i = i + 1;
    }
    proof {
        assert(dv.take(lines.len() as int) =~= dv);
    }
    match EdiHeader::read(&kept) {
        Ok(_) => Ok(kept),
        Err(e) => Err(e.prefixed("Cleaned up EDI file has invalid header: ")),
    }
}

/// A source file as the duplicate check looks at it: its lines, of which the
/// first two are the header, and its bytes.
#[derive(Debug, Clone, PartialEq, Eq)]
pub struct SourceFile {
    pub lines: Vec<String>,
    pub bytes: Vec<u8>,
}

impl View for SourceFile {
    type V = (Seq<Seq<char>>, Seq<u8>);

    open spec fn view(&self) -> (Seq<Seq<char>>, Seq<u8>) {
        (self.lines.deep_view(), self.bytes@)
    }
}

impl DeepView for SourceFile {
    type V = (Seq<Seq<char>>, Seq<u8>);

    open spec fn deep_view(&self) -> (Seq<Seq<char>>, Seq<u8>) {
        self@
    }
}

/// The error of a seller's file whose header names no seller.
pub open spec fn no_seller_named() -> Failure {
    Failure {
        kind: EdiErrorKind::MissingParty,
        text: "Source file ownership set to seller but the header names no seller"@,
    }
}

/// The error of a buyer's file whose header names no buyer.
pub open spec fn no_buyer_named() -> Failure {
    Failure {
        kind: EdiErrorKind::MissingParty,
        text: "Source file ownership set to buyer but the header names no buyer"@,
    }
}

/// The error of a buyer's file whose header names no seller.
pub open spec fn buyer_without_seller() -> Failure {
    Failure {
        kind: EdiErrorKind::MissingParty,
        text: "EDI file header has buyer reference but not seller"@,
    }
}

/// The error of a duplicate check on a file of shared ownership.
pub open spec fn ownership_unknown() -> Failure {
    Failure {
        kind: EdiErrorKind::InvalidOwnership,
        text: "Please use this only for comparisons where you know the ownership type of the file."@,
    }
}

/// The party of a header that owns a file of the given ownership.
pub open spec fn owner_in(
    head: HeaderView,
    ownership: EdiOwnership,
) -> Option<PartyView> {
    match ownership {
        EdiOwnership::Seller => head.0,
        EdiOwnership::Buyer => head.1,
        EdiOwnership::Shared => None,
    }
}

/// Where the files of a party are archived, as path components below the
/// root directory, and the party itself: a seller's files under the
/// seller's home, a buyer's under the home the buyer has at the seller.
pub open spec fn archive_of(
    head: HeaderView,
    ownership: EdiOwnership,
) -> Result<(Seq<Seq<char>>, PartyView), Failure> {
    match ownership {
        EdiOwnership::Seller => match head.0 {
            Some(seller) => match party_home(seller) {
                Ok(home) => Ok((home.push("edi"@), seller)),
                Err(f) => Err(f),
            },
            None => Err(no_seller_named()),
        },
        EdiOwnership::Buyer => match head.1 {
            Some(buyer) => match head.0 {
                Some(seller) => match party_home(seller) {
                    Ok(home) => Ok((home.push("buyers"@).push(buyer.1).push("edi"@), buyer)),
                    Err(f) => Err(f),
                },
                None => Err(buyer_without_seller()),
            },
            None => Err(no_buyer_named()),
        },
        EdiOwnership::Shared => Err(ownership_unknown()),
    }
}

/// Resolves the archive of the party that owns a file with this header.
pub fn archive_dir(head: &EdiHeader, ownership: EdiOwnership) -> (r: Result<Vec<String>, EdiError>)
    ensures
        match r {
            Ok(dir) => archive_of(head@, ownership) matches Ok(found) && found.0 == dir.deep_view(),
            Err(e) => archive_of(head@, ownership) == Err::<
                (Seq<Seq<char>>, PartyView),
                Failure,
            >(e@),
        },
{
    match ownership {
        EdiOwnership::Seller => match &head.seller {
            Some(seller) => {
                let mut dir = seller.party_dir()?;
                let ghost home = dir.deep_view();
                dir.push("edi".to_owned());
                proof {
                    assert(dir.deep_view() =~= home.push("edi"@));
                }
                Ok(dir)
            },
            None => Err(
                EdiError::with_text(
                    EdiErrorKind::MissingParty,
                    "Source file ownership set to seller but the header names no seller",
                ),
            ),
        },
        EdiOwnership::Buyer => match &head.buyer {
            Some(buyer) => match &head.seller {
                Some(seller) => {
                    let mut dir = seller.party_dir()?;
                    let ghost home = dir.deep_view();
                    dir.push("buyers".to_owned());
                    dir.push(buyer.id.clone());
                    dir.push("edi".to_owned());
                    proof {
                        assert(dir.deep_view() =~= home.push("buyers"@).push(buyer.id@).push(
                            "edi"@,
                        ));
                    }
                    Ok(dir)
                },
                None => Err(
                    EdiError::with_text(
                        EdiErrorKind::MissingParty,
                        "EDI file header has buyer reference but not seller",
                    ),
                ),
            },
            None => Err(
                EdiError::with_text(
                    EdiErrorKind::MissingParty,
                    "Source file ownership set to buyer but the header names no buyer",
                ),
            ),
        },
        EdiOwnership::Shared => Err(
            EdiError::with_text(
                EdiErrorKind::InvalidOwnership,
                "Please use this only for comparisons where you know the ownership type of the file.",
            ),
        ),
    }
}

/// Whether one of the first `n` archived files is the new file again: it
/// names the same party and holds the same bytes. An archived file whose
/// header does not decode is an error, the first such file deciding.
pub open spec fn on_file(
    ownership: EdiOwnership,
    party: PartyView,
    bytes: Seq<u8>,
    archive: Seq<(Seq<Seq<char>>, Seq<u8>)>,
    n: int,
) -> Result<bool, Failure>
    decreases n,
{
    if n <= 0 {
        Ok(false)
    } else {
        match on_file(ownership, party, bytes, archive, n - 1) {
            Err(f) => Err(f),
            Ok(found) => match header_of(archive[n - 1].0) {
                Err(f) => Err(f),
                Ok(head) => Ok(
                    found || (owner_in(head, ownership) == Some(party) && archive[n - 1].1
                        == bytes),
                ),
            },
        }
    }
}

/// Whether a new file is a delivery that is on file already: whether the
/// archive of its party holds a file that names the same party and has
/// the same bytes.
pub open spec fn already_imported(
    ownership: EdiOwnership,
    new_file: (Seq<Seq<char>>, Seq<u8>),
    archive: Seq<(Seq<Seq<char>>, Seq<u8>)>,
) -> Result<bool, Failure> {
    match header_of(new_file.0) {
        Err(f) => Err(f),
        Ok(head) => match archive_of(head, ownership) {
            Err(f) => Err(f),
            Ok((_, party)) => on_file(ownership, party, new_file.1, archive, archive.len() as int),
        },
    }
}

/// Tells whether two byte strings are the same.
pub fn same_bytes(a: &Vec<u8>, b: &Vec<u8>) -> (r: bool)
    ensures
        r == (a@ == b@),
{
    if a.len() != b.len() {
        return false;
    }
    let mut i: usize = 0;
    while i < a.len()
        invariant
            i <= a.len(),
            a.len() == b.len(),
            forall|j: int| 0 <= j < i ==> a@[j] == b@[j],
        decreases a.len() - i,
    {
        if a[i] != b[i] {
            return false;
        }
        i = i + 1;
    }
    proof {
        assert(a@ =~= b@);
    }
    true
}

/// The duplicate check: tells whether `new_file` is a delivery that is on
/// file already. `archive` holds the files that are archived for the
/// party that owns the new file. When the answer is yes, the new file is
/// to be removed and not read again.
pub fn edi_file_imported(ownership: EdiOwnership, new_file: &SourceFile, archive: &Vec<SourceFile>) -> (r:
    Result<bool, EdiError>)
    ensures
        match r {
            Ok(b) => already_imported(ownership, new_file@, archive.deep_view()) == Ok::<
                bool,
                Failure,
            >(b),
            Err(e) => already_imported(ownership, new_file@, archive.deep_view()) == Err::<
                bool,
                Failure,
            >(e@),
        },
{
    let head = EdiHeader::read(&new_file.lines)?;
    archive_dir(&head, ownership)?;
    let ghost party = archive_of(head@, ownership)->Ok_0.1;
    let ghost av = archive.deep_view();
    let mut found = false;
    let mut i: usize = 0;
    while i < archive.len()
        invariant
            i <= archive.len(),
            av == archive.deep_view(),
            header_of(new_file@.0) == Ok::<
                HeaderView,
                Failure,
            >(head@),
            archive_of(head@, ownership) is Ok,
            party == archive_of(head@, ownership)->Ok_0.1,
            on_file(ownership, party, new_file.bytes@, av, i as int) == Ok::<bool, Failure>(found),
        decreases archive.len() - i,
    {
        proof {
            assert(av[i as int] == archive@[i as int]@);
        }
        let other = match EdiHeader::read(&archive[i].lines) {
            Ok(h) => h,
            Err(e) => {
                proof {
                    lemma_error_stays(
                        ownership,
                        party,
                        new_file.bytes@,
                        av,
                        i + 1,
                        archive.len() as int,
                    );
                }
                return Err(e);
            },
        };
        let same_party = match ownership {
            EdiOwnership::Seller => match (&other.seller, &head.seller) {
                (Some(a), Some(b)) => a.same_as(b),
                _ => false,
            },
            EdiOwnership::Buyer => match (&other.buyer, &head.buyer) {
                (Some(a), Some(b)) => a.same_as(b),
                _ => false,
            },
            EdiOwnership::Shared => false,
        };
        if same_party && same_bytes(&archive[i].bytes, &new_file.bytes) {
            found = true;
        }
        i = i + 1;
    }
    Ok(found)
}

/// A file that the archive holds is on file: when the archive of its
/// party holds a file with the same lines and bytes, the duplicate check,
/// where it answers at all, answers yes.
pub proof fn lemma_redelivery_is_found(
    ownership: EdiOwnership,
    new_file: (Seq<Seq<char>>, Seq<u8>),
    archive: Seq<(Seq<Seq<char>>, Seq<u8>)>,
    k: int,
)
    requires
        0 <= k < archive.len(),
        archive[k] == new_file,
        already_imported(ownership, new_file, archive) is Ok,
    ensures
        already_imported(ownership, new_file, archive) == Ok::<bool, Failure>(true),
{
    let head = header_of(new_file.0)->Ok_0;
    let party = archive_of(head, ownership)->Ok_0.1;
    lemma_found_stays(ownership, party, new_file.1, archive, k + 1, archive.len() as int);
}

/// The duplicate check answers whenever the headers decode: when the new
/// file names the party that owns it and every archived file has a header
/// that decodes, the check gives an answer and no error.
pub proof fn lemma_duplicate_check_answers(
    ownership: EdiOwnership,
    new_file: (Seq<Seq<char>>, Seq<u8>),
    archive: Seq<(Seq<Seq<char>>, Seq<u8>)>,
)
    requires
        header_of(new_file.0) matches Ok(head) && archive_of(head, ownership) is Ok,
        forall|i: int| 0 <= i < archive.len() ==> header_of((#[trigger] archive[i]).0) is Ok,
    ensures
        already_imported(ownership, new_file, archive) is Ok,
{
    let head = header_of(new_file.0)->Ok_0;
    let party = archive_of(head, ownership)->Ok_0.1;
    lemma_search_answers(ownership, party, new_file.1, archive, archive.len() as int);
}

/// The search of the first `n` archived files answers when each of their
/// headers decodes.
proof fn lemma_search_answers(
    ownership: EdiOwnership,
    party: PartyView,
    bytes: Seq<u8>,
    archive: Seq<(Seq<Seq<char>>, Seq<u8>)>,
    n: int,
)
    requires
        n <= archive.len(),
        forall|i: int| 0 <= i < archive.len() ==> header_of((#[trigger] archive[i]).0) is Ok,
    ensures
        on_file(ownership, party, bytes, archive, n) is Ok,
    decreases n,
{
    if n > 0 {
        lemma_search_answers(ownership, party, bytes, archive, n - 1);
        assert(header_of(archive[n - 1].0) is Ok);
    }
}

/// A header that fails among the first `m` archived files fails the
/// search of any longer part of the archive.
proof fn lemma_error_stays(
    ownership: EdiOwnership,
    party: PartyView,
    bytes: Seq<u8>,
    archive: Seq<(Seq<Seq<char>>, Seq<u8>)>,
    m: int,
    n: int,
)
    requires
        0 <= m <= n,
        on_file(ownership, party, bytes, archive, m) is Err,
    ensures
        on_file(ownership, party, bytes, archive, n) == on_file(ownership, party, bytes, archive, m),
    decreases n - m,
{
    if m < n {
        lemma_error_stays(ownership, party, bytes, archive, m, n - 1);
    }
}

/// A match among the first `m` archived files is a match among the first
/// `n`, for `n` not below `m`, where the search answers at all.
proof fn lemma_found_stays(
    ownership: EdiOwnership,
    party: PartyView,
    bytes: Seq<u8>,
    archive: Seq<(Seq<Seq<char>>, Seq<u8>)>,
    m: int,
    n: int,
)
    requires
        0 <= m <= n,
        on_file(ownership, party, bytes, archive, n) is Ok,
    ensures
        on_file(ownership, party, bytes, archive, m) is Ok,
        on_file(ownership, party, bytes, archive, m) == Ok::<bool, Failure>(true) ==> on_file(
            ownership,
            party,
            bytes,
            archive,
            n,
        ) == Ok::<bool, Failure>(true),
    decreases n - m,
{
    if m < n {
        lemma_found_stays(ownership, party, bytes, archive, m, n - 1);
    }
}

} // verus!

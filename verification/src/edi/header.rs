//! The two header lines that open every interchange file, and the trading
//! parties they name.

use vstd::prelude::*;
use vstd::string::*;
use crate::edi::{
    check_widths, field, field_at, field_step, first_failure, fits, lemma_fails_at, lemma_passes_at,
    split_fields, total_width, truncated_at,
};
use crate::error::{EdiError, EdiErrorKind, Failure};
use crate::text::same_text;

verus! {

/// The length of a header line.
pub const SEQ_TITLE_REQLEN: usize = 23;

/// The field widths of a header line: marker, ownership, identifier, code.
pub const EXPL_SEQ_TITLE: [usize; 4] = [1, 2, 17, 3];

/// The widths of a header line add up to its documented length.
pub proof fn lemma_header_widths()
    ensures
        total_width(EXPL_SEQ_TITLE@) == SEQ_TITLE_REQLEN,
{
    reveal_with_fuel(crate::edi::offset_of, 5);
}

/// Whose data a header line announces.
#[derive(Debug, Clone, Copy, PartialEq, Eq, Structural)]
pub enum EdiOwnership {
    Seller,
    Buyer,
    Shared,
}

/// The ownership that a header token stands for.
pub open spec fn ownership_of(token: Seq<char>) -> Option<EdiOwnership> {
    if token == "SE"@ {
        Some(EdiOwnership::Seller)
    } else if token == "BY"@ {
        Some(EdiOwnership::Buyer)
    } else {
        None
    }
}

/// The directory that holds the homes of all parties of one ownership;
/// a shared party has none.
pub open spec fn ownership_dir(o: EdiOwnership) -> Option<Seq<char>> {
    match o {
        EdiOwnership::Seller => Some("sellers"@),
        EdiOwnership::Buyer => Some("buyers"@),
        EdiOwnership::Shared => None,
    }
}

/// The error of asking a shared ownership for its directory.
pub open spec fn shared_has_no_path() -> Failure {
    Failure {
        kind: EdiErrorKind::InvalidOwnership,
        text: "Can't resolve paths to shared ownership."@,
    }
}

impl EdiOwnership {
    /// The name of the directory under which parties of this ownership
    /// have their homes. A shared ownership has none.
    pub fn to_path(&self) -> (r: Result<&'static str, EdiError>)
        ensures
            match r {
                Ok(name) => ownership_dir(*self) == Some(name@),
                Err(e) => ownership_dir(*self) is None && e@ == shared_has_no_path(),
            },
    {
        match self {
            EdiOwnership::Seller => Ok("sellers"),
            EdiOwnership::Buyer => Ok("buyers"),
            EdiOwnership::Shared => Err(
                EdiError::with_text(
                    EdiErrorKind::InvalidOwnership,
                    "Can't resolve paths to shared ownership.",
                ),
            ),
        }
    }
}

/// A party as contracts speak of it: ownership, identifier and code.
pub type PartyView = (EdiOwnership, Seq<char>, Seq<char>);

/// A header as contracts speak of it: the seller and the buyer it names,
/// if it names them.
pub type HeaderView = (Option<PartyView>, Option<PartyView>);

/// A trading party as a header line names it.
#[derive(Debug, Clone, PartialEq, Eq)]
pub struct EdiParty {
    pub owner: EdiOwnership,
    pub id: String,
    pub code: String,
}

impl View for EdiParty {
    type V = PartyView;

    open spec fn view(&self) -> PartyView {
        (self.owner, self.id@, self.code@)
    }
}

impl DeepView for EdiParty {
    type V = PartyView;

    open spec fn deep_view(&self) -> PartyView {
        self@
    }
}

/// The error of a header whose marker field is blank.
pub open spec fn blank_party_marker() -> Failure {
    Failure {
        kind: EdiErrorKind::InvalidRowMarker,
        text: "Trying to extract party id from pointer with invalid length."@,
    }
}

/// The error of a header whose marker is not `O`.
pub open spec fn wrong_party_marker(found: Seq<char>) -> Failure {
    Failure {
        kind: EdiErrorKind::InvalidRowMarker,
        text: "Party identifier is fixed 'O', found '"@ + found + "'"@,
    }
}

/// The error of a header whose ownership token is neither `SE` nor `BY`.
pub open spec fn invalid_owner() -> Failure {
    Failure {
        kind: EdiErrorKind::InvalidOwnership,
        text: "Invalid party identifier. Owner should be BY or SE"@,
    }
}

/// The error of a header that names neither a seller nor a buyer.
pub open spec fn no_party_dir() -> Failure {
    Failure {
        kind: EdiErrorKind::InvalidOwnership,
        text: "Unable to read title as seller nor buyer."@,
    }
}

/// Why field `i` of a header line is refused, if it is.
pub open spec fn party_failure_at(line: Seq<char>, i: int) -> Option<Failure> {
    let value = field_at(line, EXPL_SEQ_TITLE@, i);
    if !fits(line, EXPL_SEQ_TITLE@, i) {
        Some(truncated_at(line, EXPL_SEQ_TITLE@, i))
    } else if i == 0 {
        if value.len() != 1 {
            Some(blank_party_marker())
        } else if value != "O"@ {
            Some(wrong_party_marker(value))
        } else {
            None
        }
    } else if i == 1 {
        if ownership_of(value) is None {
            Some(invalid_owner())
        } else {
            None
        }
    } else {
        None
    }
}

/// The checks of a header line, field by field.
pub open spec fn party_checks(line: Seq<char>) -> spec_fn(int) -> Option<Failure> {
    |i: int| party_failure_at(line, i)
}

/// The party that a header line names: its four fields are read from the
/// left, and the first one that is refused decides the error.
pub open spec fn party_of(line: Seq<char>) -> Result<
    PartyView,
    Failure,
> {
    match first_failure(party_checks(line), 4) {
        Some(f) => Err(f),
        None => Ok(
            (
                ownership_of(field_at(line, EXPL_SEQ_TITLE@, 1))->Some_0,
                field_at(line, EXPL_SEQ_TITLE@, 2),
                field_at(line, EXPL_SEQ_TITLE@, 3),
            ),
        ),
    }
}

/// The home of a party below the root directory, as path components: the
/// directory of its ownership, then its identifier.
pub open spec fn party_home(party: PartyView) -> Result<
    Seq<Seq<char>>,
    Failure,
> {
    match ownership_dir(party.0) {
        Some(dir) => Ok(seq![dir, party.1]),
        None => Err(no_party_dir()),
    }
}

impl EdiParty {
    /// A party that no header has named yet.
    pub fn new() -> (p: Self)
        ensures
            p@ == (EdiOwnership::Shared, Seq::<char>::empty(), Seq::<char>::empty()),
    {
        Self { owner: EdiOwnership::Shared, id: String::new(), code: String::new() }
    }

    /// Decodes a header line.
    pub fn from_line(line: String) -> (r: Result<Self, EdiError>)
        ensures
            match r {
                Ok(p) => party_of(line@) == Ok::<PartyView, Failure>(p@),
                Err(e) => party_of(line@) == Err::<PartyView, Failure>(
                    e@,
                ),
            },
    {
        let text = line.as_str();
        let fields = split_fields(text, &EXPL_SEQ_TITLE);
        let ghost at = party_checks(line@);
        let marker = match field(&fields, 0, text, &EXPL_SEQ_TITLE) {
            Ok(v) => v,
            Err(e) => {
                proof {
                    lemma_fails_at(at, 0, 4);
                }
                return Err(e);
            },
        };
        if marker.unicode_len() != 1 {
            proof {
                lemma_fails_at(at, 0, 4);
            }
            return Err(
                EdiError::with_text(
                    EdiErrorKind::InvalidRowMarker,
                    "Trying to extract party id from pointer with invalid length.",
                ),
            );
        }
        if !same_text(marker, "O") {
            proof {
                lemma_fails_at(at, 0, 4);
            }
            return Err(
                EdiError::quoting(
                    EdiErrorKind::InvalidRowMarker,
                    "Party identifier is fixed 'O', found '",
                    marker,
                    "'",
                ),
            );
        }
        proof {
            lemma_passes_at(at, 0);
        }
        let token = match field(&fields, 1, text, &EXPL_SEQ_TITLE) {
            Ok(v) => v,
            Err(e) => {
                proof {
                    lemma_fails_at(at, 1, 4);
                }
                return Err(e);
            },
        };
        let owner = if same_text(token, "SE") {
            EdiOwnership::Seller
        } else if same_text(token, "BY") {
            EdiOwnership::Buyer
        } else {
            proof {
                lemma_fails_at(at, 1, 4);
            }
            return Err(
                EdiError::with_text(
                    EdiErrorKind::InvalidOwnership,
                    "Invalid party identifier. Owner should be BY or SE",
                ),
            );
        };
        proof {
            lemma_passes_at(at, 1);
        }
        let id = match field(&fields, 2, text, &EXPL_SEQ_TITLE) {
            Ok(v) => v.to_owned(),
            Err(e) => {
                proof {
                    lemma_fails_at(at, 2, 4);
                }
                return Err(e);
            },
        };
        proof {
            lemma_passes_at(at, 2);
        }
        let code = match field(&fields, 3, text, &EXPL_SEQ_TITLE) {
            Ok(v) => v.to_owned(),
            Err(e) => {
                proof {
                    lemma_fails_at(at, 3, 4);
                }
                return Err(e);
            },
        };
        proof {
            lemma_passes_at(at, 3);
        }
        Ok(Self { owner, id, code })
    }

    /// Tells whether the party is a seller.
    pub fn is_seller(&self) -> (r: bool)
        ensures
            r == (self.owner == EdiOwnership::Seller),
    {
        self.owner == EdiOwnership::Seller
    }

    /// Tells whether the party is a buyer.
    pub fn is_buyer(&self) -> (r: bool)
        ensures
            r == (self.owner == EdiOwnership::Buyer),
    {
        self.owner == EdiOwnership::Buyer
    }

    /// Tells whether two parties are the same: same ownership, identifier
    /// and code.
    pub fn same_as(&self, other: &Self) -> (r: bool)
        ensures
            r == (self@ == other@),
    {
        self.owner == other.owner && same_text(self.id.as_str(), other.id.as_str()) && same_text(
            self.code.as_str(),
            other.code.as_str(),
        )
    }

    /// The home directory of the party below the root directory, as path
    /// components: `sellers` or `buyers`, then the party's identifier. A
    /// shared party has no home.
    pub fn party_dir(&self) -> (r: Result<Vec<String>, EdiError>)
        ensures
            match r {
                Ok(path) => party_home(self@) == Ok::<Seq<Seq<char>>, Failure>(path.deep_view()),
                Err(e) => party_home(self@) == Err::<Seq<Seq<char>>, Failure>(e@),
            },
    {
        let dir = if self.is_seller() {
            EdiOwnership::Seller.to_path()
        } else if self.is_buyer() {
            EdiOwnership::Buyer.to_path()
        } else {
            return Err(
                EdiError::with_text(
                    EdiErrorKind::InvalidOwnership,
                    "Unable to read title as seller nor buyer.",
                ),
            );
        };
        match dir {
            Ok(name) => {
                let mut path: Vec<String> = Vec::new();
                path.push(name.to_owned());
                path.push(self.id.clone());
                proof {
                    assert(path.deep_view() =~= seq![name@, self.id@]);
                }
                Ok(path)
            },
            Err(e) => Err(e),
        }
    }
}

/// The error of a line that does not decode as a header, as `create`
/// reports it.
pub open spec fn not_a_header(cause: Failure) -> Failure {
    Failure { kind: cause.kind, text: "Failed to read string as EDI header: "@ + cause.text }
}

/// What a header line gives the importer: the home of the party it names,
/// as path components below the root directory, and the party's
/// identifier.
pub open spec fn party_created(line: Seq<char>) -> Result<(Seq<Seq<char>>, Seq<char>), Failure> {
    match party_of(line) {
        Err(f) => Err(not_a_header(f)),
        Ok(party) => match party_home(party) {
            Ok(path) => Ok((path, party.1)),
            Err(f) => Err(f),
        },
    }
}

impl EdiParty {
    /// Decodes a header line and resolves the home of the party it names:
    /// the path components of the home below the root directory, and the
    /// party's identifier. The home of a seller is to exist from here on:
    /// the caller creates it when it is missing. The home of a buyer is not
    /// created on this account.
    pub fn create(line: String) -> (r: Result<(Vec<String>, String), EdiError>)
        ensures
            match r {
                Ok((path, id)) => party_created(line@) == Ok::<
                    (Seq<Seq<char>>, Seq<char>),
                    Failure,
                >((path.deep_view(), id@)),
                Err(e) => party_created(line@) == Err::<(Seq<Seq<char>>, Seq<char>), Failure>(e@),
            },
    {
        let party = match Self::from_line(line) {
            Ok(p) => p,
            Err(e) => {
                return Err(e.prefixed("Failed to read string as EDI header: "));
            },
        };
        let path = party.party_dir()?;
        Ok((path, party.id))
    }
}

/// Whether the home at `path` is a seller's. A seller's home is to exist
/// as soon as a header names the seller; a buyer's is not made on that
/// account.
pub open spec fn seller_home(path: Seq<Seq<char>>) -> bool {
    path.len() > 0 && path[0] == "sellers"@
}

/// Tells whether the home at `path` is a seller's.
pub fn is_seller_home(path: &Vec<String>) -> (r: bool)
    ensures
        r == seller_home(path.deep_view()),
{
    if path.len() == 0 {
        return false;
    }
    proof {
        assert(path.deep_view()[0] == path@[0]@);
    }
    same_text(path[0].as_str(), "sellers")
}

/// The home that a header line resolves to is a seller's exactly when the
/// line names a seller.
pub proof fn lemma_seller_home(line: Seq<char>)
    ensures
        party_created(line) matches Ok(found) ==> (seller_home(found.0) <==> party_of(line)->Ok_0.0
            == EdiOwnership::Seller),
{
    reveal_strlit("sellers");
    reveal_strlit("buyers");
    if party_created(line) is Ok {
        let party = party_of(line)->Ok_0;
        if party.0 == EdiOwnership::Buyer {
            assert("buyers"@[0] != "sellers"@[0]);
        }
    }
}

/// The parties that the two header lines of a file name.
#[derive(Debug, Clone, PartialEq, Eq)]
pub struct EdiHeader {
    pub seller: Option<EdiParty>,
    pub buyer: Option<EdiParty>,
}

impl View for EdiHeader {
    type V = HeaderView;

    open spec fn view(&self) -> Self::V {
        (self.seller.deep_view(), self.buyer.deep_view())
    }
}

/// The error of a file whose header line does not decode.
pub open spec fn bad_header_line(cause: Failure) -> Failure {
    Failure { kind: cause.kind, text: "Failed to read header line: "@ + cause.text }
}

/// A header with one more party filed: a buyer in the buyer's place, any
/// other party in the seller's.
pub open spec fn with_party(
    head: HeaderView,
    party: PartyView,
) -> HeaderView {
    if party.0 == EdiOwnership::Buyer {
        (head.0, Some(party))
    } else {
        (Some(party), head.1)
    }
}

/// The header of a file, read from its first `n` lines, `n` at most two.
pub open spec fn header_from(lines: Seq<Seq<char>>, n: int) -> Result<
    HeaderView,
    Failure,
>
    decreases n,
{
    if n <= 0 {
        Ok((None, None))
    } else {
        match header_from(lines, n - 1) {
            Err(f) => Err(f),
            Ok(head) => match party_of(lines[n - 1]) {
                Err(f) => Err(bad_header_line(f)),
                Ok(party) => Ok(with_party(head, party)),
            },
        }
    }
}

/// The header of a file: the parties that its first two lines name. A
/// file of fewer lines names fewer parties.
pub open spec fn header_of(lines: Seq<Seq<char>>) -> Result<
    HeaderView,
    Failure,
> {
    header_from(
        lines,
        if lines.len() < 2 {
            lines.len() as int
        } else {
            2
        },
    )
}

impl EdiHeader {
    /// A header that names no party.
    pub fn new() -> (h: Self)
        ensures
            h@ == (
                None::<PartyView>,
                None::<PartyView>,
            ),
    {
        Self { seller: None, buyer: None }
    }

    /// Reads the header of a file from its lines: only the first two are
    /// looked at.
    pub fn read(lines: &Vec<String>) -> (r: Result<Self, EdiError>)
        ensures
            match r {
                Ok(h) => header_of(lines.deep_view()) == Ok::<
                    HeaderView,
                    Failure,
                >(h@),
                Err(e) => header_of(lines.deep_view()) == Err::<
                    HeaderView,
                    Failure,
                >(e@),
            },
    {
        let mut head = Self::new();
        let n: usize = if lines.len() < 2 {
            lines.len()
        } else {
            2
        };
        let mut i: usize = 0;
        while i < n
            invariant
                i <= n <= lines.len(),
                n <= 2,
                header_from(lines.deep_view(), i as int) == Ok::<
                    HeaderView,
                    Failure,
                >(head@),
            decreases n - i,
        {
            proof {
                assert(lines.deep_view()[i as int] == lines@[i as int]@);
            }
            match EdiParty::from_line(lines[i].clone()) {
                Ok(party) => {
                    if party.is_buyer() {
                        head.buyer = Some(party);
                    } else {
                        head.seller = Some(party);
                    }
                },
                Err(e) => {
                    proof {
                        if i + 1 < n {
                            assert(header_from(lines.deep_view(), 2) == header_from(
                                lines.deep_view(),
                                1,
                            ));
                        }
                    }
                    return Err(e.prefixed("Failed to read header line: "));
                },
            }
            i = i + 1;
        }
        Ok(head)
    }
}

/// Checks every field-width table against the documented length of its
/// lines. The tables of this library pass: the check never fails.
pub fn schema_self_check() -> (r: Result<(), EdiError>)
    ensures
        r is Ok,
{
    proof {
        lemma_header_widths();
        crate::edi::products::lemma_product_widths();
        crate::edi::prices::lemma_price_widths();
        crate::edi::discounts::lemma_discount_widths();
    }
    check_widths(&EXPL_SEQ_TITLE, SEQ_TITLE_REQLEN)?;
    check_widths(&crate::edi::products::EXPL_SEQ_PRODUCT, crate::edi::products::SEQ_PROD_REQLEN)?;
    check_widths(&crate::edi::prices::EXPL_SEQ_PRICE, crate::edi::prices::SEQ_PRICE_REQLEN)?;
    check_widths(&crate::edi::discounts::EXPL_SEQ_DISC, crate::edi::discounts::SEQ_DISC_REQLEN)?;
    Ok(())
}

/// Decoding the four fields of a header from a line of 23 characters
/// leaves the cursor behind the line's last character; from a line of 22
/// characters the first three fields are decoded and the last one fails,
/// the line being too short for it.
pub proof fn lemma_header_cursor(line: Seq<char>)
    requires
        line.len() == 23 || line.len() == 22,
    ensures
        field_step(line, 0, 1) matches Ok(a) && a.1 == 1,
        field_step(line, 1, 2) matches Ok(b) && b.1 == 3,
        field_step(line, 3, 17) matches Ok(c) && c.1 == 20,
        line.len() == 23 ==> (field_step(line, 20, 3) matches Ok(d) && d.1 == 23),
        line.len() == 22 ==> (field_step(line, 20, 3) matches Err(f) && f.kind
            == EdiErrorKind::TruncatedRecord),
        line.len() == 22 ==> (party_of(line) matches Err(f) && (f.kind
            != EdiErrorKind::TruncatedRecord || f == truncated_at(line, EXPL_SEQ_TITLE@, 3))),
{
    reveal_with_fuel(crate::edi::offset_of, 5);
    if line.len() == 22 {
        let at = party_checks(line);
        assert(fits(line, EXPL_SEQ_TITLE@, 0));
        assert(fits(line, EXPL_SEQ_TITLE@, 1));
        assert(fits(line, EXPL_SEQ_TITLE@, 2));
        assert(!fits(line, EXPL_SEQ_TITLE@, 3));
        if at(0) is Some {
            lemma_fails_at(at, 0, 4);
        } else {
            lemma_passes_at(at, 0);
            if at(1) is Some {
                lemma_fails_at(at, 1, 4);
            } else {
                lemma_passes_at(at, 1);
                lemma_passes_at(at, 2);
                lemma_fails_at(at, 3, 4);
            }
        }
    }
}

} // verus!

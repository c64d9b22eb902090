//! The parts of the importer's configuration that its rules read.

use vstd::prelude::*;
use vstd::string::*;
use crate::error::{EdiError, EdiErrorKind, Failure};
use crate::text::same_text;

verus! {

/// A seller as the configuration knows it: identifier, name, and for each
/// category the addresses its files can be fetched from. Each inner list
/// holds alternative addresses of one file, to be tried in order.
#[derive(Debug, Clone, PartialEq, Eq)]
pub struct Seller {
    pub id: String,
    pub name: String,
    pub lv: Option<Vec<Vec<String>>>,
    pub iv: Option<Vec<Vec<String>>>,
    pub sa: Option<Vec<Vec<String>>>,
    pub te: Option<Vec<Vec<String>>>,
    pub ky: Option<Vec<Vec<String>>>,
}

/// Where imported records go.
#[derive(Debug, Clone, Copy, PartialEq, Eq, Structural)]
pub struct ImportTargets {
    pub json: bool,
    pub sqlite: bool,
    pub search: bool,
}

/// The error of a configuration that asks for the search index without
/// the relational store it is built from.
pub open spec fn search_needs_sqlite() -> Failure {
    Failure {
        kind: EdiErrorKind::InvalidConfiguration,
        text: "Search index importing requires sqlite import to be enabled."@,
    }
}

impl ImportTargets {
    /// Checks that the targets can be served together: the search index
    /// is built from the relational store.
    pub fn check(&self) -> (r: Result<(), EdiError>)
        ensures
            match r {
                Ok(_) => !(self.search && !self.sqlite),
                Err(e) => self.search && !self.sqlite && e@ == search_needs_sqlite(),
            },
    {
        if self.search && !self.sqlite {
            return Err(
                EdiError::with_text(
                    EdiErrorKind::InvalidConfiguration,
                    "Search index importing requires sqlite import to be enabled.",
                ),
            );
        }
        Ok(())
    }
}

/// The identifiers of the configured sellers, in order.
pub open spec fn seller_ids(sellers: Seq<Seller>) -> Seq<Seq<char>> {
    Seq::new(sellers.len(), |i: int| sellers[i].id@)
}

/// The place of the first seller with identifier `id` among the sellers
/// from place `from` on.
pub open spec fn seller_at(sellers: Seq<Seller>, id: Seq<char>, from: int) -> Option<int>
    decreases sellers.len() - from,
{
    if from < 0 || from >= sellers.len() {
        None
    } else if sellers[from].id@ == id {
        Some(from)
    } else {
        seller_at(sellers, id, from + 1)
    }
}

/// The name of the first configured seller with identifier `id`.
pub open spec fn seller_name_of(sellers: Seq<Seller>, id: Seq<char>) -> Option<Seq<char>> {
    match seller_at(sellers, id, 0) {
        Some(i) => Some(sellers[i].name@),
        None => None,
    }
}

/// A seller is found exactly when its identifier is among those of the
/// configured sellers.
pub proof fn lemma_seller_known(sellers: Seq<Seller>, id: Seq<char>, from: int)
    requires
        0 <= from <= sellers.len(),
    ensures
        seller_at(sellers, id, from) is Some <==> exists|i: int|
            from <= i < sellers.len() && #[trigger] seller_ids(sellers)[i] == id,
        seller_at(sellers, id, from) matches Some(i) ==> from <= i < sellers.len() && sellers[i].id@
            == id,
    decreases sellers.len() - from,
{
    if from < sellers.len() {
        lemma_seller_known(sellers, id, from + 1);
        if sellers[from].id@ == id {
            assert(seller_ids(sellers)[from] == id);
        } else {
            if exists|i: int| from <= i < sellers.len() && #[trigger] seller_ids(sellers)[i] == id {
                let i = choose|i: int|
                    from <= i < sellers.len() && #[trigger] seller_ids(sellers)[i] == id;
                assert(i != from);
            }
        }
    }
}

/// The position of the first configured seller with identifier `id`.
pub fn find_seller(sellers: &Vec<Seller>, id: &str) -> (r: Option<usize>)
    ensures
        match r {
            Some(i) => seller_at(sellers@, id@, 0) == Some(i as int) && i < sellers.len(),
            None => seller_at(sellers@, id@, 0) is None,
        },
        r is Some <==> seller_ids(sellers@).contains(id@),
{
    let mut i: usize = 0;
    while i < sellers.len()
        invariant
            i <= sellers.len(),
            seller_at(sellers@, id@, 0) == seller_at(sellers@, id@, i as int),
        decreases sellers.len() - i,
    {
        if same_text(sellers[i].id.as_str(), id) {
            proof {
                lemma_seller_known(sellers@, id@, 0);
            }
            return Some(i);
        }
        i = i + 1;
    }
    proof {
        lemma_seller_known(sellers@, id@, 0);
    }
    None
}

} // verus!

//! The rows of the full-text search index and what an import changes in
//! them.

use vstd::prelude::*;
use vstd::string::*;
use crate::text::same_text;

verus! {

/// A row of the search index: the texts of one product of one seller in
/// one language, joined into one body.
#[derive(Debug, Clone, PartialEq, Eq)]
pub struct DbProductSearch {
    pub lang: i8,
    pub seller_id: String,
    pub product_id: String,
    pub body: String,
}

/// `body` with `part` added behind a comma.
pub open spec fn joined(body: Seq<char>, part: Seq<char>) -> Seq<char> {
    body + ", "@ + part
}

/// `body` with `part` added behind a comma, if there is a part.
pub open spec fn joined_if(body: Seq<char>, part: Option<Seq<char>>) -> Seq<char> {
    match part {
        Some(p) => joined(body, p),
        None => body,
    }
}

/// The body under which a product is searched: its name, then, each
/// behind a comma, the name of its seller where the seller is active, its
/// description where it has one that is not empty, its search tags and its
/// search code.
pub open spec fn search_body_of(
    name: Seq<char>,
    seller_name: Option<Seq<char>>,
    description: Option<Seq<char>>,
    tags: Option<Seq<char>>,
    code: Option<Seq<char>>,
) -> Seq<char> {
    joined_if(
        joined_if(
            joined_if(
                joined_if(name, seller_name),
                match description {
                    Some(d) => if d.len() == 0 {
                        None
                    } else {
                        Some(d)
                    },
                    None => None,
                },
            ),
            tags,
        ),
        code,
    )
}

fn join_if(body: String, part: Option<&str>) -> (r: String)
    ensures
        r@ == joined_if(
            body@,
            match part {
                Some(p) => Some(p@),
                None => None,
            },
        ),
{
    match part {
        Some(p) => {
            let mut r = body;
            r.append(", ");
            r.append(p);
            r
        },
        None => body,
    }
}

/// Joins the texts of a product into the body it is searched under.
pub fn search_body(
    name: &str,
    seller_name: Option<&str>,
    description: Option<&str>,
    tags: Option<&str>,
    code: Option<&str>,
) -> (body: String)
    ensures
        body@ == search_body_of(
            name@,
            match seller_name {
                Some(p) => Some(p@),
                None => None,
            },
            match description {
                Some(p) => Some(p@),
                None => None,
            },
            match tags {
                Some(p) => Some(p@),
                None => None,
            },
            match code {
                Some(p) => Some(p@),
                None => None,
            },
        ),
{
    let body = join_if(name.to_owned(), seller_name);
    let described = match description {
        Some(d) => if d.unicode_len() == 0 {
            None
        } else {
            Some(d)
        },
        None => None,
    };
    let body = join_if(body, described);
    let body = join_if(body, tags);
    join_if(body, code)
}

/// What an import does to the search index for one product.
#[derive(Debug, Clone, Copy, PartialEq, Eq, Structural)]
pub enum SearchChange {
    /// The index holds the row as it is.
    Keep,
    /// The index holds a row of the product that differs: its body is
    /// replaced.
    Update,
    /// The index holds no row of the product: the row is added.
    Insert,
}

/// Whether two rows are of the same product of the same seller.
pub open spec fn same_product(a: DbProductSearch, b: DbProductSearch) -> bool {
    a.seller_id@ == b.seller_id@ && a.product_id@ == b.product_id@
}

/// Whether two rows say the same.
pub open spec fn same_row(a: DbProductSearch, b: DbProductSearch) -> bool {
    a.lang == b.lang && same_product(a, b) && a.body@ == b.body@
}

/// The place of the first row of `index`, from `from` on, that is of the
/// product of `row`.
pub open spec fn listed_at(index: Seq<DbProductSearch>, row: DbProductSearch, from: int) -> Option<
    int,
>
    decreases index.len() - from,
{
    if from < 0 || from >= index.len() {
        None
    } else if same_product(index[from], row) {
        Some(from)
    } else {
        listed_at(index, row, from + 1)
    }
}

/// What is to be done to the index `index` for the row `row`: the row is
/// held against the first row of its product that the index holds.
pub open spec fn change_for(index: Seq<DbProductSearch>, row: DbProductSearch) -> SearchChange {
    match listed_at(index, row, 0) {
        Some(i) => if same_row(index[i], row) {
            SearchChange::Keep
        } else {
            SearchChange::Update
        },
        None => SearchChange::Insert,
    }
}

/// Tells what is to be done to the index for one row.
pub fn search_change(index: &Vec<DbProductSearch>, row: &DbProductSearch) -> (r: SearchChange)
    ensures
        r == change_for(index@, *row),
{
    let mut i: usize = 0;
    while i < index.len()
        invariant
            i <= index.len(),
            listed_at(index@, *row, 0) == listed_at(index@, *row, i as int),
        decreases index.len() - i,
    {
        let held = &index[i];
        if same_text(held.seller_id.as_str(), row.seller_id.as_str()) && same_text(
            held.product_id.as_str(),
            row.product_id.as_str(),
        ) {
            if held.lang == row.lang && same_text(held.body.as_str(), row.body.as_str()) {
                return SearchChange::Keep;
            }
            return SearchChange::Update;
        }
        i = i + 1;
    }
    SearchChange::Insert
}

/// Tells, for each of `rows`, what is to be done to the index.
pub fn search_changes(index: &Vec<DbProductSearch>, rows: &Vec<DbProductSearch>) -> (out: Vec<
    SearchChange,
>)
    ensures
        out@.len() == rows@.len(),
        forall|k: int| 0 <= k < out@.len() ==> #[trigger] out@[k] == change_for(index@, rows@[k]),
{
    let mut out: Vec<SearchChange> = Vec::new();
    let mut k: usize = 0;
    while k < rows.len()
        invariant
            k <= rows.len(),
            out@.len() == k,
            forall|j: int| 0 <= j < k ==> #[trigger] out@[j] == change_for(index@, rows@[j]),
        decreases rows.len() - k,
    {
        out.push(search_change(index, &rows[k]));
        k = k + 1;
    }
    out
}

} // verus!

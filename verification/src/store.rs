//! What the persisted store is handed: the keys of its rows and the
//! values of its lookup tables, computed from decoded records.

use vstd::prelude::*;
use vstd::string::*;
use crate::edi::prices::Price;
use crate::edi::products::Product;
use crate::order::{sorted_distinct, strictly_sorted};
use crate::text::{decimal_text, digit_char, number_text};
use crate::utils::{all_langs, Lang, lang_index};

verus! {

/// The key of a seller's row for a product or a price: the seller's
/// identifier, then the product's.
pub open spec fn seller_row(seller_id: Seq<char>, identifier: Seq<char>) -> Seq<char> {
    seller_id + identifier
}

/// The key of the row that holds a product's texts in one language: the
/// key of the seller's product row, then the index of the language.
pub open spec fn translation_row(seller_id: Seq<char>, identifier: Seq<char>, lang: Lang) -> Seq<
    char,
> {
    seller_row(seller_id, identifier) + decimal_text(lang_index(lang))
}

/// The key of a buyer's discount row: the buyer's key, then the discount
/// group.
pub open spec fn discount_row(buyer_key: Seq<char>, discount_group: Seq<char>) -> Seq<char> {
    buyer_key + discount_group
}

/// Builds the key of a seller's row for a product or a price.
pub fn seller_row_id(seller_id: &str, identifier: &str) -> (key: String)
    ensures
        key@ == seller_row(seller_id@, identifier@),
{
    let mut key = seller_id.to_owned();
    key.append(identifier);
    key
}

/// Builds the key of the row that holds a product's texts in one language.
pub fn translation_row_id(seller_id: &str, identifier: &str, lang: &Lang) -> (key: String)
    ensures
        key@ == translation_row(seller_id@, identifier@, *lang),
{
    let mut key = seller_row_id(seller_id, identifier);
    key.append(number_text(lang.to_index() as u128).as_str());
    key
}

/// Builds the key of a buyer's discount row.
pub fn discount_row_id(buyer_key: &str, discount_group: &str) -> (key: String)
    ensures
        key@ == discount_row(buyer_key@, discount_group@),
{
    let mut key = buyer_key.to_owned();
    key.append(discount_group);
    key
}

/// The rows of one product in two languages: the seller's product row is
/// the same whatever the language, so that it is written once for each
/// identifier, and the rows of the texts differ from language to language.
pub proof fn lemma_rows_per_language(
    seller_id: Seq<char>,
    identifier: Seq<char>,
    one: Lang,
    other: Lang,
)
    requires
        one != other,
    ensures
        translation_row(seller_id, identifier, one) != translation_row(
            seller_id,
            identifier,
            other,
        ),
        translation_row(seller_id, identifier, one).subrange(
            0,
            seller_row(seller_id, identifier).len() as int,
        ) == seller_row(seller_id, identifier),
{
    let base = seller_row(seller_id, identifier);
    let a = translation_row(seller_id, identifier, one);
    let b = translation_row(seller_id, identifier, other);
    assert(decimal_text(lang_index(one)) =~= seq![digit_char(lang_index(one) as int)]);
    assert(decimal_text(lang_index(other)) =~= seq![digit_char(lang_index(other) as int)]);
    assert(a[base.len() as int] == digit_char(lang_index(one) as int));
    assert(b[base.len() as int] == digit_char(lang_index(other) as int));
    assert(a.subrange(0, base.len() as int) =~= base);
}

/// Whether an item is kept in stock: it is, unless its record says that
/// it is not.
pub fn in_stock(flag: Option<bool>) -> (r: bool)
    ensures
        r == match flag {
            Some(b) => b,
            None => true,
        },
{
    match flag {
        Some(b) => b,
        None => true,
    }
}

/// The units of the products `products`, each once, in rising order.
pub fn product_units(products: &Vec<&Product>) -> (out: Vec<String>)
    ensures
        strictly_sorted(out.deep_view()),
        forall|x: Seq<char>|
            out.deep_view().contains(x) <==> exists|i: int|
                0 <= i < products@.len() && (#[trigger] products@[i]).unit@ == x,
{
    let mut raw: Vec<String> = Vec::new();
    let mut i: usize = 0;
    while i < products.len()
        invariant
            i <= products.len(),
            raw@.len() == i,
            forall|j: int| 0 <= j < i ==> raw.deep_view()[j] == (#[trigger] products@[j]).unit@,
        decreases products.len() - i,
    {
        let ghost before = raw.deep_view();
        raw.push(products[i].unit.clone());
        proof {
            assert(raw.deep_view() =~= before.push(products@[i as int].unit@));
        }
        i = i + 1;
    }
    let out = sorted_distinct(&raw);
    proof {
        assert forall|x: Seq<char>|
            raw.deep_view().contains(x) <==> exists|i: int|
                0 <= i < products@.len() && (#[trigger] products@[i]).unit@ == x by {
            if raw.deep_view().contains(x) {
                let j = choose|j: int| 0 <= j < raw.deep_view().len() && raw.deep_view()[j] == x;
                assert(products@[j].unit@ == x);
            }
            if exists|i: int| 0 <= i < products@.len() && (#[trigger] products@[i]).unit@ == x {
                let j = choose|j: int| 0 <= j < products@.len() && (#[trigger] products@[j]).unit@ == x;
                assert(raw.deep_view()[j] == x);
            }
        }
    }
    out
}

/// The discount groups that the products `products` name, each once, in
/// rising order.
pub fn product_discount_groups(products: &Vec<&Product>) -> (out: Vec<String>)
    ensures
        strictly_sorted(out.deep_view()),
        forall|x: Seq<char>|
            out.deep_view().contains(x) <==> exists|i: int|
                0 <= i < products@.len() && (#[trigger] products@[i]).discount_group.deep_view()
                    == Some(x),
{
    let mut raw: Vec<String> = Vec::new();
    let mut i: usize = 0;
    while i < products.len()
        invariant
            i <= products.len(),
            forall|x: Seq<char>|
                raw.deep_view().contains(x) <==> exists|j: int|
                    0 <= j < i && (#[trigger] products@[j]).discount_group.deep_view() == Some(x),
        decreases products.len() - i,
    {
        let ghost before = raw.deep_view();
        match &products[i].discount_group {
            Some(group) => {
                raw.push(group.clone());
                proof {
                    assert(raw.deep_view() =~= before.push(group@));
                    assert forall|x: Seq<char>|
                        raw.deep_view().contains(x) <==> exists|j: int|
                            0 <= j < i + 1 && (#[trigger] products@[j]).discount_group.deep_view()
                                == Some(x) by {
                        if raw.deep_view().contains(x) {
                            let k = choose|k: int|
                                0 <= k < raw.deep_view().len() && raw.deep_view()[k] == x;
                            if k < before.len() {
                                assert(before[k] == x);
                                assert(before.contains(x));
                            } else {
                                assert(products@[i as int].discount_group.deep_view() == Some(x));
                            }
                        }
                        if exists|j: int|
                            0 <= j < i + 1 && (#[trigger] products@[j]).discount_group.deep_view()
                                == Some(x) {
                            let j = choose|j: int|
                                0 <= j < i + 1 && (
                                #[trigger] products@[j]).discount_group.deep_view() == Some(x);
                            if j < i {
                                assert(before.contains(x));
                                let k = choose|k: int| 0 <= k < before.len() && before[k] == x;
                                assert(raw.deep_view()[k] == x);
                            } else {
                                assert(raw.deep_view()[before.len() as int] == x);
                            }
                        }
                    }
                }
            },
            None => {
                proof {
                    assert forall|x: Seq<char>|
                        raw.deep_view().contains(x) <==> exists|j: int|
                            0 <= j < i + 1 && (#[trigger] products@[j]).discount_group.deep_view()
                                == Some(x) by {
                        if exists|j: int|
                            0 <= j < i + 1 && (#[trigger] products@[j]).discount_group.deep_view()
                                == Some(x) {
                            let j = choose|j: int|
                                0 <= j < i + 1 && (
                                #[trigger] products@[j]).discount_group.deep_view() == Some(x);
                            assert(j < i);
                        }
                    }
                }
            },
        }
        i = i + 1;
    }
    sorted_distinct(&raw)
}

/// The languages in which the products `products` are written, in the
/// order of their indices.
pub fn product_languages(products: &Vec<&Product>) -> (out: Vec<Lang>)
    ensures
        forall|l: Lang|
            out@.contains(l) <==> exists|i: int|
                0 <= i < products@.len() && (#[trigger] products@[i]).lang == l,
        forall|a: int, b: int|
            0 <= a < b < out@.len() ==> lang_index(#[trigger] out@[a]) < lang_index(
                #[trigger] out@[b],
            ),
{
    let langs = Lang::mapper();
    let mut out: Vec<Lang> = Vec::new();
    let mut k: usize = 0;
    while k < 4
        invariant
            k <= 4,
            langs@.len() == 4,
            forall|i: int| 0 <= i < 4 ==> (#[trigger] langs@[i]).1 == all_langs()[i],
            forall|l: Lang|
                out@.contains(l) <==> lang_index(l) <= k && exists|i: int|
                    0 <= i < products@.len() && (#[trigger] products@[i]).lang == l,
            forall|a: int| 0 <= a < out@.len() ==> lang_index(#[trigger] out@[a]) <= k,
            forall|a: int, b: int|
                0 <= a < b < out@.len() ==> lang_index(#[trigger] out@[a]) < lang_index(
                    #[trigger] out@[b],
                ),
        decreases 4 - k,
    {
        let lang = langs[k].1;
        let mut found = false;
        let mut i: usize = 0;
        while i < products.len() && !found
            invariant
                i <= products.len(),
                found ==> exists|j: int|
                    0 <= j < products@.len() && (#[trigger] products@[j]).lang == lang,
                !found ==> forall|j: int| 0 <= j < i ==> (#[trigger] products@[j]).lang != lang,
            decreases products.len() - i + (if found {
                0int
            } else {
                1int
            }),
        {
            if products[i].lang == lang {
                found = true;
            } else {
                i = i + 1;
            }
        }
        let ghost before = out@;
        if found {
            out.push(lang);
        }
        proof {
            assert(lang_index(lang) == k + 1);
            assert forall|l: Lang|
                out@.contains(l) <==> lang_index(l) <= k + 1 && exists|i: int|
                    0 <= i < products@.len() && (#[trigger] products@[i]).lang == l by {
                if out@.contains(l) {
                    let p = choose|p: int| 0 <= p < out@.len() && out@[p] == l;
                    if p < before.len() {
                        assert(before[p] == l);
                        assert(before.contains(l));
                    }
                }
                if lang_index(l) <= k + 1 && exists|i: int|
                    0 <= i < products@.len() && (#[trigger] products@[i]).lang == l {
                    if lang_index(l) <= k {
                        assert(before.contains(l));
                        let p = choose|p: int| 0 <= p < before.len() && before[p] == l;
                        assert(out@[p] == l);
                    } else {
                        assert(l == lang);
                        assert(out@[before.len() as int] == l);
                    }
                }
            }
        }
        k = k + 1;
    }
    out
}

/// The units of the prices `prices`, each once, in rising order.
pub fn price_units(prices: &Vec<&Price>) -> (out: Vec<String>)
    ensures
        strictly_sorted(out.deep_view()),
        forall|x: Seq<char>|
            out.deep_view().contains(x) <==> exists|i: int|
                0 <= i < prices@.len() && (#[trigger] prices@[i]).unit@ == x,
{
    let mut raw: Vec<String> = Vec::new();
    let mut i: usize = 0;
    while i < prices.len()
        invariant
            i <= prices.len(),
            raw@.len() == i,
            forall|j: int| 0 <= j < i ==> raw.deep_view()[j] == (#[trigger] prices@[j]).unit@,
        decreases prices.len() - i,
    {
        let ghost before = raw.deep_view();
        raw.push(prices[i].unit.clone());
        proof {
            assert(raw.deep_view() =~= before.push(prices@[i as int].unit@));
        }
        i = i + 1;
    }
    let out = sorted_distinct(&raw);
    proof {
        assert forall|x: Seq<char>|
            raw.deep_view().contains(x) <==> exists|i: int|
                0 <= i < prices@.len() && (#[trigger] prices@[i]).unit@ == x by {
            if raw.deep_view().contains(x) {
                let j = choose|j: int| 0 <= j < raw.deep_view().len() && raw.deep_view()[j] == x;
                assert(prices@[j].unit@ == x);
            }
            if exists|i: int| 0 <= i < prices@.len() && (#[trigger] prices@[i]).unit@ == x {
                let j = choose|j: int| 0 <= j < prices@.len() && (#[trigger] prices@[j]).unit@ == x;
                assert(raw.deep_view()[j] == x);
            }
        }
    }
    out
}

/// The discount groups of the prices `prices`, each once, in rising
/// order.
pub fn price_discount_groups(prices: &Vec<&Price>) -> (out: Vec<String>)
    ensures
        strictly_sorted(out.deep_view()),
        forall|x: Seq<char>|
            out.deep_view().contains(x) <==> exists|i: int|
                0 <= i < prices@.len() && (#[trigger] prices@[i]).discount_group@ == x,
{
    let mut raw: Vec<String> = Vec::new();
    let mut i: usize = 0;
    while i < prices.len()
        invariant
            i <= prices.len(),
            raw@.len() == i,
            forall|j: int|
                0 <= j < i ==> raw.deep_view()[j] == (#[trigger] prices@[j]).discount_group@,
        decreases prices.len() - i,
    {
        let ghost before = raw.deep_view();
        raw.push(prices[i].discount_group.clone());
        proof {
            assert(raw.deep_view() =~= before.push(prices@[i as int].discount_group@));
        }
        i = i + 1;
    }
    let out = sorted_distinct(&raw);
    proof {
        assert forall|x: Seq<char>|
            raw.deep_view().contains(x) <==> exists|i: int|
                0 <= i < prices@.len() && (#[trigger] prices@[i]).discount_group@ == x by {
            if raw.deep_view().contains(x) {
                let j = choose|j: int| 0 <= j < raw.deep_view().len() && raw.deep_view()[j] == x;
                assert(prices@[j].discount_group@ == x);
            }
            if exists|i: int| 0 <= i < prices@.len() && (#[trigger] prices@[i]).discount_group@ == x {
                let j = choose|j: int|
                    0 <= j < prices@.len() && (#[trigger] prices@[j]).discount_group@ == x;
                assert(raw.deep_view()[j] == x);
            }
        }
    }
    out
}

/// The price groups of the prices `prices`, each once, in rising order.
pub fn price_groups(prices: &Vec<&Price>) -> (out: Vec<String>)
    ensures
        strictly_sorted(out.deep_view()),
        forall|x: Seq<char>|
            out.deep_view().contains(x) <==> exists|i: int|
                0 <= i < prices@.len() && (#[trigger] prices@[i]).price_group@ == x,
{
    let mut raw: Vec<String> = Vec::new();
    let mut i: usize = 0;
    while i < prices.len()
        invariant
            i <= prices.len(),
            raw@.len() == i,
            forall|j: int| 0 <= j < i ==> raw.deep_view()[j] == (#[trigger] prices@[j]).price_group@,
        decreases prices.len() - i,
    {
        let ghost before = raw.deep_view();
        raw.push(prices[i].price_group.clone());
        proof {
            assert(raw.deep_view() =~= before.push(prices@[i as int].price_group@));
        }
        i = i + 1;
    }
    let out = sorted_distinct(&raw);
    proof {
        assert forall|x: Seq<char>|
            raw.deep_view().contains(x) <==> exists|i: int|
                0 <= i < prices@.len() && (#[trigger] prices@[i]).price_group@ == x by {
            if raw.deep_view().contains(x) {
                let j = choose|j: int| 0 <= j < raw.deep_view().len() && raw.deep_view()[j] == x;
                assert(prices@[j].price_group@ == x);
            }
            if exists|i: int| 0 <= i < prices@.len() && (#[trigger] prices@[i]).price_group@ == x {
                let j = choose|j: int|
                    0 <= j < prices@.len() && (#[trigger] prices@[j]).price_group@ == x;
                assert(raw.deep_view()[j] == x);
            }
        }
    }
    out
}

} // verus!

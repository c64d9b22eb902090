//! The addresses that source archives are fetched from, and the names
//! that fetched files are stored under.

use vstd::prelude::*;
use vstd::string::*;
use crate::config::Seller;
use crate::number::all_digits;
use crate::text::to_chars;
use crate::utils::{is_alphanumeric, random_token};

verus! {

/// The month and the last two digits of the year of the present day, in
/// universal time, as four digits.
///
/// Wraps `chrono::Utc::now` and the format `%m%y`, which writes the month
/// and the year modulo 100, each zero-padded to two digits. The claim is
/// the shape of the text, which holds of every day.
#[verifier::external_body]
fn month_year_token() -> (token: String)
    ensures
        token@.len() == 4,
        all_digits(token@),
{
    format!("{}", chrono::Utc::now().format("%m%y"))
}

/// The mark that an address may hold in the place of the month and year.
pub open spec fn month_year_mark() -> Seq<char> {
    "{mmyy}"@
}

/// `s` with every occurrence of `mark`, taken from the left and without
/// overlap, replaced by `with`. An empty mark occurs nowhere.
pub open spec fn replaced(s: Seq<char>, mark: Seq<char>, with: Seq<char>) -> Seq<char>
    decreases s.len(),
{
    if mark.len() == 0 || s.len() < mark.len() {
        s
    } else if s.take(mark.len() as int) == mark {
        with + replaced(s.skip(mark.len() as int), mark, with)
    } else {
        seq![s[0]] + replaced(s.drop_first(), mark, with)
    }
}

/// Tells whether `mark` stands in `s` at position `i`.
fn stands_at(s: &Vec<char>, i: usize, mark: &Vec<char>) -> (r: bool)
    requires
        i + mark.len() <= s.len(),
    ensures
        r == (s@.skip(i as int).take(mark.len() as int) == mark@),
{
    let ghost part = s@.skip(i as int).take(mark.len() as int);
    let mut k: usize = 0;
    while k < mark.len()
        invariant
            k <= mark.len(),
            i + mark.len() <= s.len(),
            part == s@.skip(i as int).take(mark.len() as int),
            forall|j: int| 0 <= j < k ==> part[j] == mark@[j],
        decreases mark.len() - k,
    {
        if s[i + k] != mark[k] {
            proof {
                assert(part[k as int] == s@[i + k]);
            }
            return false;
        }
        proof {
            assert(part[k as int] == s@[i + k]);
        }
        k = k + 1;
    }
    proof {
        assert(part =~= mark@);
    }
    true
}

/// Replaces every occurrence of `mark` in `text` by `with`.
pub fn replace_mark(text: &str, mark: &str, with: &str) -> (r: String)
    ensures
        r@ == replaced(text@, mark@, with@),
{
    let s = to_chars(text);
    let m = to_chars(mark);
    if m.len() == 0 {
        return text.to_owned();
    }
    let n: usize = s.len();
    let mut out = String::new();
    let mut start: usize = 0;
    let mut i: usize = 0;
    proof {
        assert(s@.skip(0) =~= s@);
        assert(out@ + s@.subrange(0, 0) + replaced(s@.skip(0), m@, with@) =~= replaced(
            s@,
            m@,
            with@,
        ));
    }
    while n - i >= m.len()
        invariant
            start <= i <= n,
            n == s.len(),
            s@ == text@,
            m@ == mark@,
            m.len() > 0,
            replaced(s@, m@, with@) == out@ + s@.subrange(start as int, i as int) + replaced(
                s@.skip(i as int),
                m@,
                with@,
            ),
        decreases n - i,
    {
        let ghost rest = s@.skip(i as int);
        if stands_at(&s, i, &m) {
            let ghost before = out@;
            out.append(text.substring_char(start, i));
            out.append(with);
            proof {
                assert(rest.skip(m.len() as int) =~= s@.skip(i + m.len()));
                assert(s@.subrange((i + m.len()) as int, (i + m.len()) as int) =~= Seq::<
                    char,
                >::empty());
                assert(out@ + s@.subrange((i + m.len()) as int, (i + m.len()) as int) + replaced(
                    s@.skip(i + m.len()),
                    m@,
                    with@,
                ) =~= before + s@.subrange(start as int, i as int) + (with@ + replaced(
                    rest.skip(m.len() as int),
                    m@,
                    with@,
                )));
            }
            i = i + m.len();
            start = i;
        } else {
            proof {
                assert(rest.drop_first() =~= s@.skip(i + 1));
                assert(rest[0] == s@[i as int]);
                assert(s@.subrange(start as int, i + 1) =~= s@.subrange(start as int, i as int)
                    + seq![s@[i as int]]);
                assert(out@ + s@.subrange(start as int, i + 1) + replaced(
                    s@.skip(i + 1),
                    m@,
                    with@,
                ) =~= out@ + s@.subrange(start as int, i as int) + (seq![rest[0]] + replaced(
                    rest.drop_first(),
                    m@,
                    with@,
                )));
            }
            i = i + 1;
        }
    }
    let ghost before = out@;
    out.append(text.substring_char(start, n));
    proof {
        assert(s@.subrange(start as int, n as int) =~= s@.subrange(start as int, i as int)
            + s@.skip(i as int));
        assert(out@ =~= before + s@.subrange(start as int, i as int) + s@.skip(i as int));
    }
    out
}

/// The addresses `list`, each with the month-and-year mark filled
/// in by `mmyy`.
pub open spec fn dated(list: Seq<Seq<char>>, mmyy: Seq<char>) -> Seq<Seq<char>> {
    Seq::new(list.len(), |i: int| replaced(list[i], month_year_mark(), mmyy))
}

/// The address lists `ext`, each address dated by `mmyy`.
pub open spec fn dated_lists(ext: Seq<Seq<Seq<char>>>, mmyy: Seq<char>) -> Seq<Seq<Seq<char>>> {
    Seq::new(ext.len(), |i: int| dated(ext[i], mmyy))
}

/// The address lists of an optional category entry; none when the entry
/// is missing.
pub open spec fn lists_of(entry: Option<Vec<Vec<String>>>) -> Seq<Seq<Seq<char>>> {
    match entry {
        Some(lists) => lists.deep_view(),
        None => Seq::empty(),
    }
}

/// The address lists of a seller, category by category in the fixed
/// order, each address dated by `mmyy`.
pub open spec fn collected(seller: Seller, mmyy: Seq<char>) -> Seq<Seq<Seq<char>>> {
    dated_lists(lists_of(seller.lv), mmyy) + dated_lists(lists_of(seller.iv), mmyy) + dated_lists(
        lists_of(seller.sa),
        mmyy,
    ) + dated_lists(lists_of(seller.te), mmyy) + dated_lists(lists_of(seller.ky), mmyy)
}

/// Appends to `urls` the address lists `ext`, each address dated by
/// `mmyy`.
pub fn url_ext(urls: &mut Vec<Vec<String>>, ext: &Vec<Vec<String>>, mmyy: &str)
    ensures
        final(urls).deep_view() == old(urls).deep_view() + dated_lists(ext.deep_view(), mmyy@),
{
    let ghost start = urls.deep_view();
    let ghost want = dated_lists(ext.deep_view(), mmyy@);
    let mut i: usize = 0;
    proof {
        assert(urls.deep_view() =~= start + want.take(0));
    }
    while i < ext.len()
        invariant
            i <= ext.len(),
            want == dated_lists(ext.deep_view(), mmyy@),
            urls.deep_view() == start + want.take(i as int),
        decreases ext.len() - i,
    {
        let list = &ext[i];
        let ghost target = dated(list.deep_view(), mmyy@);
        let mut add: Vec<String> = Vec::new();
        let mut k: usize = 0;
        proof {
            assert(add.deep_view() =~= target.take(0));
        }
        while k < list.len()
            invariant
                k <= list.len(),
                target == dated(list.deep_view(), mmyy@),
                add.deep_view() == target.take(k as int),
            decreases list.len() - k,
        {
            let ghost so_far = add.deep_view();
            let url = replace_mark(list[k].as_str(), "{mmyy}", mmyy);
            add.push(url);
            proof {
                assert(list.deep_view()[k as int] == list@[k as int]@);
                assert(add.deep_view() =~= so_far.push(target[k as int]));
                assert(target.take(k + 1) =~= target.take(k as int).push(target[k as int]));
            }
            k = k + 1;
        }
        let ghost so_far = urls.deep_view();
        urls.push(add);
        proof {
            assert(target.take(list.len() as int) =~= target);
            assert(ext.deep_view()[i as int] == list.deep_view());
            assert(want[i as int] == target);
            assert(urls.deep_view() =~= so_far.push(target));
            assert(want.take(i + 1) =~= want.take(i as int).push(want[i as int]));
        }
        i = i + 1;
    }
    proof {
        assert(want.take(ext.len() as int) =~= want);
    }
}

/// The address lists of a seller for the month and year `mmyy`.
pub fn url_collect_at(seller: &Seller, mmyy: &str) -> (urls: Vec<Vec<String>>)
    ensures
        urls.deep_view() == collected(*seller, mmyy@),
{
    let mut urls: Vec<Vec<String>> = Vec::new();
    proof {
        assert(urls.deep_view() =~= Seq::<Seq<Seq<char>>>::empty());
    }
    if let Some(v) = &seller.lv {
        url_ext(&mut urls, v, mmyy);
    }
    if let Some(v) = &seller.iv {
        url_ext(&mut urls, v, mmyy);
    }
    if let Some(v) = &seller.sa {
        url_ext(&mut urls, v, mmyy);
    }
    if let Some(v) = &seller.te {
        url_ext(&mut urls, v, mmyy);
    }
    if let Some(v) = &seller.ky {
        url_ext(&mut urls, v, mmyy);
    }
    proof {
        assert(urls.deep_view() =~= collected(*seller, mmyy@));
    }
    urls
}

/// The address lists of a seller for the present month: each inner list
/// holds the alternative addresses of one file.
pub fn url_collect(seller: &Seller) -> (urls: Vec<Vec<String>>)
    ensures
        exists|mmyy: Seq<char>|
            mmyy.len() == 4 && all_digits(mmyy) && urls.deep_view() == #[trigger] collected(
                *seller,
                mmyy,
            ),
{
    let mmyy = month_year_token();
    url_collect_at(seller, mmyy.as_str())
}

/// The part of an address behind its last `/`; the whole address when it
/// holds none.
pub open spec fn last_segment(url: Seq<char>) -> Seq<char>
    decreases url.len(),
{
    if url.len() == 0 {
        url
    } else if url.last() == '/' {
        Seq::empty()
    } else {
        last_segment(url.drop_last()).push(url.last())
    }
}

/// The name of a stored file: a random token, a hyphen, and the name the
/// file came with.
pub open spec fn tagged_name(token: Seq<char>, name: Seq<char>) -> Seq<char> {
    token + "-"@ + name
}

/// Cuts the part behind the last `/` out of an address.
pub fn file_part(url: &str) -> (r: String)
    ensures
        r@ == last_segment(url@),
{
    let s = to_chars(url);
    let mut start: usize = s.len();
    proof {
        assert(s@.subrange(start as int, s.len() as int) =~= Seq::<char>::empty());
    }
    while start > 0 && s[start - 1] != '/'
        invariant
            start <= s.len(),
            forall|j: int| start <= j < s.len() ==> s@[j] != '/',
        decreases start,
    {
        start = start - 1;
    }
    proof {
        lemma_last_segment(s@, start as int);
    }
    url.substring_char(start, s.len()).to_owned()
}

/// The last segment of a text starts behind its last `/`.
proof fn lemma_last_segment(s: Seq<char>, start: int)
    requires
        0 <= start <= s.len(),
        forall|j: int| start <= j < s.len() ==> s[j] != '/',
        start > 0 ==> s[start - 1] == '/',
    ensures
        last_segment(s) == s.subrange(start, s.len() as int),
    decreases s.len(),
{
    if s.len() == 0 {
        assert(s.subrange(0, 0) =~= s);
    } else if start == s.len() {
        assert(s.subrange(start, s.len() as int) =~= Seq::<char>::empty());
    } else {
        let t = s.drop_last();
        lemma_last_segment(t, start);
        assert(t.subrange(start, t.len() as int).push(s.last()) =~= s.subrange(
            start,
            s.len() as int,
        ));
    }
}

/// Puts `token` and a hyphen before `name`.
pub fn tag_name(token: &str, name: &str) -> (r: String)
    ensures
        r@ == tagged_name(token@, name@),
{
    let mut r = token.to_owned();
    r.append("-");
    r.append(name);
    r
}

/// The name under which the file fetched from `url` is stored: ten random
/// letters and digits, a hyphen, and the file part of the address.
pub fn download_name(url: &str) -> (r: String)
    ensures
        exists|token: Seq<char>|
            {
                &&& token.len() == 10
                &&& forall|i: int| 0 <= i < token.len() ==> is_alphanumeric(#[trigger] token[i])
                &&& r@ == #[trigger] tagged_name(token, last_segment(url@))
            },
{
    let token = random_token(10);
    let part = file_part(url);
    tag_name(token.as_str(), part.as_str())
}

/// The name under which an uploaded file called `name` is stored: ten
/// random letters and digits, a hyphen, and `name`.
pub fn upload_name(name: &str) -> (r: String)
    ensures
        exists|token: Seq<char>|
            {
                &&& token.len() == 10
                &&& forall|i: int| 0 <= i < token.len() ==> is_alphanumeric(#[trigger] token[i])
                &&& r@ == #[trigger] tagged_name(token, name@)
            },
{
    let token = random_token(10);
    tag_name(token.as_str(), name)
}

} // verus!

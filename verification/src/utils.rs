//! The closed code sets of the interchange format: product category,
//! language and row operation, each with its wire code.

use vstd::prelude::*;
use vstd::string::*;
use rand::distributions::{Alphanumeric, DistString};
use crate::error::{EdiError, EdiErrorKind, Failure};
use crate::text::{same_text, to_chars};

verus! {

/// The product line a record belongs to; every persisted store is
/// partitioned by it.
#[derive(Debug, Clone, Copy, PartialEq, Eq, Structural, PartialOrd, Ord, Hash, Default)]
pub enum Category {
    #[default]
    Unset,
    WaterAndHeating,
    Ventilation,
    Electricity,
    Industrial,
    Refrigeration,
}

/// The category that a one-letter wire code stands for.
pub open spec fn category_of(code: Seq<char>) -> Option<Category> {
    if code == "L"@ {
        Some(Category::WaterAndHeating)
    } else if code == "I"@ {
        Some(Category::Ventilation)
    } else if code == "S"@ {
        Some(Category::Electricity)
    } else if code == "P"@ {
        Some(Category::Industrial)
    } else if code == "K"@ {
        Some(Category::Refrigeration)
    } else {
        None
    }
}

/// The name under which a category's tables and snapshots are filed.
pub open spec fn category_name(c: Category) -> Seq<char> {
    match c {
        Category::Unset => "unset"@,
        Category::WaterAndHeating => "lv"@,
        Category::Ventilation => "iv"@,
        Category::Electricity => "sa"@,
        Category::Industrial => "te"@,
        Category::Refrigeration => "ky"@,
    }
}

/// The categories that own persisted stores, in their fixed order.
pub open spec fn stored_categories() -> Seq<Category> {
    seq![
        Category::WaterAndHeating,
        Category::Ventilation,
        Category::Electricity,
        Category::Industrial,
        Category::Refrigeration,
    ]
}

/// The error for a category code outside the known set.
pub open spec fn invalid_category(found: Seq<char>) -> Failure {
    Failure {
        kind: EdiErrorKind::InvalidCategory,
        text: "Invalid EDI category '"@ + found + "' provided"@,
    }
}

impl Category {
    /// Reads a category from its one-letter wire code.
    pub fn from_edi_str(val: &str) -> (r: Result<Self, EdiError>)
        ensures
            match r {
                Ok(c) => category_of(val@) == Some(c),
                Err(e) => category_of(val@) is None && e@ == invalid_category(val@),
            },
    {
        if same_text(val, "L") {
            Ok(Category::WaterAndHeating)
        } else if same_text(val, "I") {
            Ok(Category::Ventilation)
        } else if same_text(val, "S") {
            Ok(Category::Electricity)
        } else if same_text(val, "P") {
            Ok(Category::Industrial)
        } else if same_text(val, "K") {
            Ok(Category::Refrigeration)
        } else {
            Err(
                EdiError::quoting(
                    EdiErrorKind::InvalidCategory,
                    "Invalid EDI category '",
                    val,
                    "' provided",
                ),
            )
        }
    }

    /// The name under which the category's tables and snapshots are filed.
    pub fn to_name(&self) -> (name: &'static str)
        ensures
            name@ == category_name(*self),
    {
        match self {
            Category::Unset => "unset",
            Category::WaterAndHeating => "lv",
            Category::Ventilation => "iv",
            Category::Electricity => "sa",
            Category::Industrial => "te",
            Category::Refrigeration => "ky",
        }
    }

    /// Every category that owns persisted stores, each with its name.
    pub fn mapper() -> (m: [(&'static str, Self); 5])
        ensures
            m@.len() == 5,
            forall|i: int|
                0 <= i < 5 ==> (#[trigger] m@[i]).1 == stored_categories()[i] && m@[i].0@
                    == category_name(stored_categories()[i]),
    {
        [
            (Category::WaterAndHeating.to_name(), Category::WaterAndHeating),
            (Category::Ventilation.to_name(), Category::Ventilation),
            (Category::Electricity.to_name(), Category::Electricity),
            (Category::Industrial.to_name(), Category::Industrial),
            (Category::Refrigeration.to_name(), Category::Refrigeration),
        ]
    }
}

/// The language of a product's texts.
#[derive(Debug, Clone, Copy, PartialEq, Eq, Structural, PartialOrd, Ord, Hash, Default)]
pub enum Lang {
    #[default]
    Fin,
    Swe,
    Eng,
    Nor,
}

/// The lower-case form of an ASCII capital; any other character is kept.
pub open spec fn ascii_lower(c: char) -> char {
    if 'A' <= c && c <= 'Z' {
        ((c as u8) + 32) as char
    } else {
        c
    }
}

/// `s` with every ASCII capital in lower case.
pub open spec fn lowered(s: Seq<char>) -> Seq<char> {
    Seq::new(s.len(), |i: int| ascii_lower(s[i]))
}

/// The canonical lower-case name of a language.
pub open spec fn lang_name(l: Lang) -> Seq<char> {
    match l {
        Lang::Fin => "fin"@,
        Lang::Swe => "swe"@,
        Lang::Eng => "eng"@,
        Lang::Nor => "nor"@,
    }
}

/// The stable integer under which a language is stored.
pub open spec fn lang_index(l: Lang) -> nat {
    match l {
        Lang::Fin => 1,
        Lang::Swe => 2,
        Lang::Eng => 3,
        Lang::Nor => 4,
    }
}

/// The languages in the order of their indices.
pub open spec fn all_langs() -> Seq<Lang> {
    seq![Lang::Fin, Lang::Swe, Lang::Eng, Lang::Nor]
}

/// The language that a name stands for, whatever the case of its letters.
pub open spec fn lang_of(name: Seq<char>) -> Option<Lang> {
    if lowered(name) == "fin"@ {
        Some(Lang::Fin)
    } else if lowered(name) == "swe"@ {
        Some(Lang::Swe)
    } else if lowered(name) == "eng"@ {
        Some(Lang::Eng)
    } else if lowered(name) == "nor"@ {
        Some(Lang::Nor)
    } else {
        None
    }
}

/// The error for a language name outside the known set.
pub open spec fn invalid_language(found: Seq<char>) -> Failure {
    Failure {
        kind: EdiErrorKind::InvalidLanguage,
        text: "Invalid language name "@ + found
            + " provided. Expected one of: [fin, swe, eng, nor]"@,
    }
}

/// Lower-cases one ASCII capital.
fn lower_char(c: char) -> (r: char)
    ensures
        r == ascii_lower(c),
{
    if 'A' <= c && c <= 'Z' {
        ((c as u8) + 32) as char
    } else {
        c
    }
}

/// Tells whether `val`, its ASCII capitals lowered, reads `name`.
fn reads_as(val: &Vec<char>, name: &str) -> (r: bool)
    ensures
        r == (lowered(val@) == name@),
{
    let want = to_chars(name);
    if val.len() != want.len() {
        return false;
    }
    let mut i: usize = 0;
    while i < val.len()
        invariant
            i <= val.len(),
            val.len() == want.len(),
            want@ == name@,
            forall|j: int| 0 <= j < i ==> ascii_lower(val@[j]) == want@[j],
        decreases val.len() - i,
    {
        if lower_char(val[i]) != want[i] {
            proof {
                assert(lowered(val@)[i as int] != name@[i as int]);
            }
            return false;
        }
        i = i + 1;
    }
    proof {
        assert(lowered(val@) =~= name@);
    }
    true
}

impl Lang {
    /// The stable integer under which the language is stored.
    pub fn to_index(&self) -> (i: usize)
        ensures
            i == lang_index(*self),
    {
        match self {
            Lang::Fin => 1,
            Lang::Swe => 2,
            Lang::Eng => 3,
            Lang::Nor => 4,
        }
    }

    /// The canonical lower-case name of the language.
    pub fn to_name(&self) -> (name: &'static str)
        ensures
            name@ == lang_name(*self),
    {
        match self {
            Lang::Fin => "fin",
            Lang::Swe => "swe",
            Lang::Eng => "eng",
            Lang::Nor => "nor",
        }
    }

    /// Reads a language from its name, in any mix of upper and lower case.
    pub fn from_name(val: &str) -> (r: Result<Self, EdiError>)
        ensures
            match r {
                Ok(l) => lang_of(val@) == Some(l),
                Err(e) => lang_of(val@) is None && e@ == invalid_language(val@),
            },
    {
        let chars = to_chars(val);
        if reads_as(&chars, "fin") {
            Ok(Lang::Fin)
        } else if reads_as(&chars, "swe") {
            Ok(Lang::Swe)
        } else if reads_as(&chars, "eng") {
            Ok(Lang::Eng)
        } else if reads_as(&chars, "nor") {
            Ok(Lang::Nor)
        } else {
            Err(
                EdiError::quoting(
                    EdiErrorKind::InvalidLanguage,
                    "Invalid language name ",
                    val,
                    " provided. Expected one of: [fin, swe, eng, nor]",
                ),
            )
        }
    }

    /// Every language with its name, in the order of their indices.
    pub fn mapper() -> (m: [(&'static str, Self); 4])
        ensures
            m@.len() == 4,
            forall|i: int|
                0 <= i < 4 ==> (#[trigger] m@[i]).1 == all_langs()[i] && m@[i].0@ == lang_name(
                    all_langs()[i],
                ),
    {
        [
            (Lang::Fin.to_name(), Lang::Fin),
            (Lang::Swe.to_name(), Lang::Swe),
            (Lang::Eng.to_name(), Lang::Eng),
            (Lang::Nor.to_name(), Lang::Nor),
        ]
    }
}

/// What a product row asks for: the addition, change or removal of its
/// product. `Empty` marks a record that no row has filled yet.
#[derive(Debug, Clone, Copy, PartialEq, Eq, Structural, Default)]
pub enum Operation {
    Added,
    Modified,
    Destroyed,
    #[default]
    Empty,
}

/// The operation that a one-digit wire code stands for.
pub open spec fn operation_of(code: Seq<char>) -> Option<Operation> {
    if code == "1"@ {
        Some(Operation::Added)
    } else if code == "2"@ {
        Some(Operation::Modified)
    } else if code == "3"@ {
        Some(Operation::Destroyed)
    } else {
        None
    }
}

/// The short name under which an operation is stored.
pub open spec fn operation_name(o: Operation) -> Seq<char> {
    match o {
        Operation::Added => "add"@,
        Operation::Modified => "mod"@,
        Operation::Destroyed => "del"@,
        Operation::Empty => "-"@,
    }
}

/// The error for an operation code outside the known set.
pub open spec fn invalid_operation(found: Seq<char>) -> Failure {
    Failure {
        kind: EdiErrorKind::InvalidOperation,
        text: "Operation has to be number between 1 and 3. Found '"@ + found + "'"@,
    }
}

impl Operation {
    /// Reads an operation from its one-digit wire code.
    pub fn from_str(val: &str) -> (r: Result<Self, EdiError>)
        ensures
            match r {
                Ok(o) => operation_of(val@) == Some(o),
                Err(e) => operation_of(val@) is None && e@ == invalid_operation(val@),
            },
    {
        if same_text(val, "1") {
            Ok(Operation::Added)
        } else if same_text(val, "2") {
            Ok(Operation::Modified)
        } else if same_text(val, "3") {
            Ok(Operation::Destroyed)
        } else {
            Err(
                EdiError::quoting(
                    EdiErrorKind::InvalidOperation,
                    "Operation has to be number between 1 and 3. Found '",
                    val,
                    "'",
                ),
            )
        }
    }

    /// The short name under which the operation is stored. An empty
    /// operation has none.
    pub fn to_name(&self) -> (name: &'static str)
        requires
            *self != Operation::Empty,
        ensures
            name@ == operation_name(*self),
    {
        match self {
            Operation::Added => "add",
            Operation::Destroyed => "del",
            _ => "mod",
        }
    }

    /// The operation as shown to a reader: its short name, or a dash for
    /// the empty operation.
    pub fn label(&self) -> (name: &'static str)
        ensures
            name@ == operation_name(*self),
    {
        match self {
            Operation::Added => "add",
            Operation::Modified => "mod",
            Operation::Destroyed => "del",
            Operation::Empty => "-",
        }
    }
}

/// Whether `c` is an ASCII letter or digit.
pub open spec fn is_alphanumeric(c: char) -> bool {
    ('0' <= c && c <= '9') || ('A' <= c && c <= 'Z') || ('a' <= c && c <= 'z')
}

/// A random text of `len` ASCII letters and digits.
///
/// Wraps `rand::distributions::Alphanumeric::sample_string` on the
/// thread's generator: the claim is the length and the alphabet of the
/// text, which hold of every draw.
#[verifier::external_body]
pub(crate) fn random_token(len: usize) -> (token: String)
    ensures
        token@.len() == len,
        forall|i: int| 0 <= i < token@.len() ==> is_alphanumeric(#[trigger] token@[i]),
{
    Alphanumeric.sample_string(&mut rand::thread_rng(), len)
}

} // verus!

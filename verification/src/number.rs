//! Numbers as the interchange format writes them: packed decimals, whose
//! decimal point is implied by position, and plain signed integers.

use vstd::prelude::*;
use vstd::string::*;
use crate::error::{EdiError, EdiErrorKind, Failure};
use crate::text::to_chars;

verus! {

/// Whether `c` is one of the ten ASCII decimal digits.
pub open spec fn is_digit(c: char) -> bool {
    '0' <= c && c <= '9'
}

/// Whether `s` holds decimal digits only.
pub open spec fn all_digits(s: Seq<char>) -> bool {
    forall|i: int| 0 <= i < s.len() ==> is_digit(#[trigger] s[i])
}

/// The value of the digit `c`.
pub open spec fn digit_value(c: char) -> nat {
    (c as nat - '0' as nat) as nat
}

/// The number that the digit string `s` writes; zero for the empty string.
pub open spec fn digits_value(s: Seq<char>) -> nat
    decreases s.len(),
{
    if s.len() == 0 {
        0
    } else {
        digits_value(s.drop_last()) * 10 + digit_value(s.last())
    }
}

/// A digit string writes zero exactly when all its digits are `0`.
pub proof fn lemma_zero_digits(s: Seq<char>)
    requires
        all_digits(s),
    ensures
        digits_value(s) == 0 <==> forall|i: int| 0 <= i < s.len() ==> #[trigger] s[i] == '0',
    decreases s.len(),
{
    if s.len() > 0 {
        let t = s.drop_last();
        lemma_zero_digits(t);
        assert(is_digit(s.last()));
        if digits_value(s) == 0 {
            assert forall|i: int| 0 <= i < s.len() implies #[trigger] s[i] == '0' by {
                if i < s.len() - 1 {
                    assert(t[i] == s[i]);
                }
            }
        } else {
            if forall|i: int| 0 <= i < s.len() ==> #[trigger] s[i] == '0' {
                assert forall|i: int| 0 <= i < t.len() implies #[trigger] t[i] == '0' by {
                    assert(t[i] == s[i]);
                }
                assert(s[s.len() - 1] == '0');
            }
        }
    }
}

/// The value of a digit string never falls when digits are appended.
pub proof fn lemma_prefix_value(s: Seq<char>, k: int)
    requires
        0 <= k <= s.len(),
    ensures
        digits_value(s.take(k)) <= digits_value(s),
    decreases s.len() - k,
{
    if k == s.len() {
        assert(s.take(k) =~= s);
    } else {
        lemma_prefix_value(s, k + 1);
        assert(s.take(k + 1).drop_last() =~= s.take(k));
    }
}

/// Tells whether `c` is a decimal digit.
pub fn char_is_digit(c: char) -> (r: bool)
    ensures
        r == is_digit(c),
{
    '0' <= c && c <= '9'
}

/// Tells whether `v[from..to]` holds decimal digits only.
fn digits_only(v: &Vec<char>, from: usize, to: usize) -> (r: bool)
    requires
        from <= to <= v.len(),
    ensures
        r == all_digits(v@.subrange(from as int, to as int)),
{
    let ghost s = v@.subrange(from as int, to as int);
    let mut i: usize = from;
    while i < to
        invariant
            from <= i <= to <= v.len(),
            s == v@.subrange(from as int, to as int),
            forall|j: int| 0 <= j < i - from ==> is_digit(#[trigger] s[j]),
        decreases to - i,
    {
        if !char_is_digit(v[i]) {
            proof {
                assert(s[i - from] == v@[i as int]);
            }
            return false;
        }
        proof {
            assert(s[i - from] == v@[i as int]);
        }
        i = i + 1;
    }
    true
}

/// A decimal number kept as the two digit groups it was packed in: the
/// digits before the implied decimal point and those behind it.
#[derive(Debug, Clone, PartialEq, Eq)]
pub struct PackedDecimal {
    pub whole: String,
    pub fraction: String,
}

impl View for PackedDecimal {
    type V = (Seq<char>, Seq<char>);

    open spec fn view(&self) -> (Seq<char>, Seq<char>) {
        (self.whole@, self.fraction@)
    }
}

/// Whether two digit groups make a packed decimal: digits only, at least
/// one of them before the point.
pub open spec fn is_decimal(whole: Seq<char>, fraction: Seq<char>) -> bool {
    whole.len() > 0 && all_digits(whole) && all_digits(fraction)
}

/// The number written by the digit groups, as a count of units of the last
/// fractional digit: `whole.fraction` times ten to the power `fraction.len()`.
pub open spec fn scaled_value(whole: Seq<char>, fraction: Seq<char>) -> nat {
    digits_value(whole + fraction)
}

impl PackedDecimal {
    /// The invariant of a packed decimal.
    pub open spec fn wf(&self) -> bool {
        is_decimal(self.whole@, self.fraction@)
    }

    /// The value in units of the last fractional digit.
    pub open spec fn scaled(&self) -> nat {
        scaled_value(self.whole@, self.fraction@)
    }

    /// The number of digits behind the decimal point.
    pub open spec fn scale(&self) -> nat {
        self.fraction@.len()
    }

    /// Tells whether the number is zero.
    pub fn is_zero(&self) -> (r: bool)
        requires
            self.wf(),
        ensures
            r == (self.scaled() == 0),
    {
        let w = to_chars(self.whole.as_str());
        let f = to_chars(self.fraction.as_str());
        let ghost s = self.whole@ + self.fraction@;
        proof {
            assert(all_digits(s)) by {
                assert forall|i: int| 0 <= i < s.len() implies is_digit(#[trigger] s[i]) by {
                    if i < w@.len() {
                        assert(s[i] == w@[i]);
                    } else {
                        assert(s[i] == f@[i - w@.len()]);
                    }
                }
            }
            lemma_zero_digits(s);
        }
        let mut i: usize = 0;
        while i < w.len()
            invariant
                i <= w.len(),
                w@ == self.whole@,
                s == self.whole@ + self.fraction@,
                digits_value(s) == 0 <==> forall|j: int| 0 <= j < s.len() ==> #[trigger] s[j] == '0',
                forall|j: int| 0 <= j < i ==> #[trigger] s[j] == '0',
            decreases w.len() - i,
        {
            if w[i] != '0' {
                proof {
                    assert(s[i as int] == w@[i as int]);
                }
                return false;
            }
            proof {
                assert(s[i as int] == w@[i as int]);
            }
            i = i + 1;
        }
        let mut k: usize = 0;
        while k < f.len()
            invariant
                k <= f.len(),
                w@ == self.whole@,
                f@ == self.fraction@,
                s == self.whole@ + self.fraction@,
                digits_value(s) == 0 <==> forall|j: int| 0 <= j < s.len() ==> #[trigger] s[j] == '0',
                forall|j: int| 0 <= j < w.len() + k ==> #[trigger] s[j] == '0',
            decreases f.len() - k,
        {
            if f[k] != '0' {
                proof {
                    assert(s[w.len() + k] == f@[k as int]);
                }
                return false;
            }
            proof {
                assert(s[w.len() + k] == f@[k as int]);
            }
            k = k + 1;
        }
        true
    }

    /// The value in units of the last fractional digit, when it fits in 64
    /// bits.
    pub fn to_scaled(&self) -> (r: Option<u64>)
        requires
            self.wf(),
        ensures
            match r {
                Some(v) => v == self.scaled(),
                None => self.scaled() > u64::MAX,
            },
    {
        let mut all = to_chars(self.whole.as_str());
        let mut f = to_chars(self.fraction.as_str());
        all.append(&mut f);
        let ghost s = self.whole@ + self.fraction@;
        proof {
            assert(all@ =~= s);
            assert(all_digits(s)) by {
                assert forall|i: int| 0 <= i < s.len() implies is_digit(#[trigger] s[i]) by {
                    if i < self.whole@.len() {
                        assert(s[i] == self.whole@[i]);
                    } else {
                        assert(s[i] == self.fraction@[i - self.whole@.len()]);
                    }
                }
            }
        }
        proof {
            assert(all@.subrange(0, all.len() as int) =~= s);
        }
        magnitude(&all, 0, all.len(), u64::MAX)
    }
}

/// The number written by the digits `v[from..to]`, unless it is above
/// `limit`.
fn magnitude(v: &Vec<char>, from: usize, to: usize, limit: u64) -> (r: Option<u64>)
    requires
        from <= to <= v.len(),
        all_digits(v@.subrange(from as int, to as int)),
    ensures
        match r {
            Some(n) => n == digits_value(v@.subrange(from as int, to as int)) && n <= limit,
            None => digits_value(v@.subrange(from as int, to as int)) > limit,
        },
{
    let ghost s = v@.subrange(from as int, to as int);
    let mut acc: u64 = 0;
    let mut i: usize = from;
    proof {
        assert(s.take(0) =~= Seq::<char>::empty());
    }
    while i < to
        invariant
            from <= i <= to <= v.len(),
            s == v@.subrange(from as int, to as int),
            all_digits(s),
            acc == digits_value(s.take(i - from)),
            acc <= limit,
        decreases to - i,
    {
        let c = v[i];
        proof {
            assert(s[i - from] == c);
            assert(is_digit(c));
            assert(s.take(i - from + 1).drop_last() =~= s.take(i - from));
            assert(s.take(i - from + 1).last() == c);
        }
        let d: u64 = (c as u8 - '0' as u8) as u64;
        if d > limit || acc > (limit - d) / 10 {
            proof {
                lemma_prefix_value(s, i - from + 1);
            }
            return None;
        }
        acc = acc * 10 + d;
        i = i + 1;
    }
    proof {
        assert(s.take(to - from) =~= s);
    }
    Some(acc)
}

/// The error for a packed number whose digits before the point do not
/// read as a number.
pub open spec fn bad_whole(whole: Seq<char>, val: Seq<char>) -> Failure {
    Failure {
        kind: EdiErrorKind::MalformedNumber,
        text: "Failed to read integers ("@ + whole + ") from string '"@ + val + "' as number: "@ + (
        if whole.len() == 0 {
            "cannot parse integer from empty string"@
        } else {
            "invalid digit found in string"@
        }),
    }
}

/// The error for a packed number whose digits behind the point do not
/// read as a number.
pub open spec fn bad_fraction(fraction: Seq<char>, val: Seq<char>) -> Failure {
    Failure {
        kind: EdiErrorKind::MalformedNumber,
        text: "Failed to read decimals ("@ + fraction + ") from string '"@ + val
            + "' as number: invalid digit found in string"@,
    }
}

/// The error for a packed number too short to hold a digit behind the
/// point.
pub open spec fn unsplittable(val: Seq<char>) -> Failure {
    Failure {
        kind: EdiErrorKind::MalformedNumber,
        text: "Unable to split decimals from '"@ + val + "' string"@,
    }
}

/// Why the digit groups `whole` and `fraction`, cut from the field `val`, make no
/// packed decimal; `None` when they make one.
pub open spec fn decimal_failure(whole: Seq<char>, fraction: Seq<char>, val: Seq<char>) -> Option<
    Failure,
> {
    if whole.len() == 0 || !all_digits(whole) {
        Some(bad_whole(whole, val))
    } else if !all_digits(fraction) {
        Some(bad_fraction(fraction, val))
    } else {
        None
    }
}

/// Rebuilds a packed decimal from the digits before the implied point
/// (`whole`) and those behind it (`fraction`). `val` is the field both were cut
/// from and only serves the error message.
pub fn str_as_decimal(whole: &str, fraction: &str, val: &str) -> (r: Result<PackedDecimal, EdiError>)
    ensures
        match r {
            Ok(d) => decimal_failure(whole@, fraction@, val@) is None && d@ == (whole@, fraction@) && d.wf(),
            Err(e) => decimal_failure(whole@, fraction@, val@) == Some(e@),
        },
{
    let w = to_chars(whole);
    let f = to_chars(fraction);
    proof {
        assert(w@.subrange(0, w.len() as int) =~= w@);
        assert(f@.subrange(0, f.len() as int) =~= f@);
    }
    if w.len() == 0 || !digits_only(&w, 0, w.len()) {
        let mut m = "Failed to read integers (".to_owned();
        m.append(whole);
        m.append(") from string '");
        m.append(val);
        m.append("' as number: ");
        if w.len() == 0 {
            m.append("cannot parse integer from empty string");
        } else {
            m.append("invalid digit found in string");
        }
        return Err(EdiError::new(EdiErrorKind::MalformedNumber, m));
    }
    if !digits_only(&f, 0, f.len()) {
        let mut m = "Failed to read decimals (".to_owned();
        m.append(fraction);
        m.append(") from string '");
        m.append(val);
        m.append("' as number: invalid digit found in string");
        return Err(EdiError::new(EdiErrorKind::MalformedNumber, m));
    }
    Ok(PackedDecimal { whole: whole.to_owned(), fraction: fraction.to_owned() })
}

/// What a required packed-decimal field decodes to: the field is cut
/// behind its first `split` characters, and must go on beyond them.
pub open spec fn required_decimal(val: Seq<char>, split: int) -> Result<
    (Seq<char>, Seq<char>),
    Failure,
> {
    if val.len() <= split {
        Err(unsplittable(val))
    } else {
        match decimal_failure(val.take(split), val.skip(split), val) {
            Some(f) => Err(f),
            None => Ok((val.take(split), val.skip(split))),
        }
    }
}

/// What an optional packed-decimal field decodes to: a field no longer
/// than `split` characters, and a number that is zero, both count as
/// absent.
pub open spec fn optional_decimal(val: Seq<char>, split: int) -> Result<
    Option<(Seq<char>, Seq<char>)>,
    Failure,
> {
    if val.len() <= split {
        Ok(None)
    } else {
        match decimal_failure(val.take(split), val.skip(split), val) {
            Some(f) => Err(f),
            None => if scaled_value(val.take(split), val.skip(split)) == 0 {
                Ok(None)
            } else {
                Ok(Some((val.take(split), val.skip(split))))
            },
        }
    }
}

/// Whether a decoded number is what its field holds: `m` is what the
/// field decodes to.
pub open spec fn decimal_agrees(
    r: Result<PackedDecimal, EdiError>,
    m: Result<(Seq<char>, Seq<char>), Failure>,
) -> bool {
    match r {
        Ok(d) => m == Ok::<(Seq<char>, Seq<char>), Failure>(d@) && d.wf(),
        Err(e) => m == Err::<(Seq<char>, Seq<char>), Failure>(e@),
    }
}

/// Whether an optional number is the one that `m` names.
pub open spec fn same_decimal(d: Option<PackedDecimal>, m: Option<(Seq<char>, Seq<char>)>) -> bool {
    match d {
        Some(x) => m == Some(x@) && x.wf(),
        None => m is None,
    }
}

/// Whether a decoded optional number is what its field holds: `m` is
/// what the field decodes to.
pub open spec fn optional_decimal_agrees(
    r: Result<Option<PackedDecimal>, EdiError>,
    m: Result<Option<(Seq<char>, Seq<char>)>, Failure>,
) -> bool {
    match r {
        Ok(d) => m is Ok && same_decimal(d, m->Ok_0),
        Err(e) => m == Err::<Option<(Seq<char>, Seq<char>)>, Failure>(e@),
    }
}

/// Decodes a packed-decimal field that must be present: `split` digits
/// before the implied point, the rest behind it.
pub fn decode_decimal(val: &str, split: usize) -> (r: Result<PackedDecimal, EdiError>)
    ensures
        decimal_agrees(r, required_decimal(val@, split as int)),
{
    let n: usize = val.unicode_len();
    if n <= split {
        return Err(
            EdiError::quoting(
                EdiErrorKind::MalformedNumber,
                "Unable to split decimals from '",
                val,
                "' string",
            ),
        );
    }
    let whole = val.substring_char(0, split);
    let fraction = val.substring_char(split, n);
    str_as_decimal(whole, fraction, val)
}

/// Decodes a packed-decimal field that may be absent. A field too short to
/// be cut, and a number that is zero, both give `None`.
pub fn decode_optional_decimal(val: &str, split: usize) -> (r: Result<
    Option<PackedDecimal>,
    EdiError,
>)
    ensures
        optional_decimal_agrees(r, optional_decimal(val@, split as int)),
{
    let n: usize = val.unicode_len();
    if n <= split {
        return Ok(None);
    }
    let whole = val.substring_char(0, split);
    let fraction = val.substring_char(split, n);
    match str_as_decimal(whole, fraction, val) {
        Ok(d) => {
            if d.is_zero() {
                Ok(None)
            } else {
                Ok(Some(d))
            }
        },
        Err(e) => Err(e),
    }
}

/// Packing keeps the value: the number that a packed-decimal field
/// decodes to is the number that the digits of the whole field write, in
/// units of its last digit, with as many digits behind the point as the
/// field has behind the cut.
pub proof fn lemma_packed_value(val: Seq<char>, split: int)
    requires
        0 < split,
    ensures
        required_decimal(val, split) matches Ok(d) ==> scaled_value(d.0, d.1) == digits_value(val)
            && d.0.len() == split && d.1.len() == val.len() - split,
        required_decimal(val, split) is Ok <==> val.len() > split && all_digits(val),
{
    if val.len() > split {
        let whole = val.take(split);
        let fraction = val.skip(split);
        assert(whole + fraction =~= val);
        if all_digits(val) {
            assert forall|i: int| 0 <= i < whole.len() implies is_digit(#[trigger] whole[i]) by {
                assert(whole[i] == val[i]);
            }
            assert forall|i: int| 0 <= i < fraction.len() implies is_digit(
                #[trigger] fraction[i],
            ) by {
                assert(fraction[i] == val[i + split]);
            }
        }
        if all_digits(whole) && all_digits(fraction) {
            assert forall|i: int| 0 <= i < val.len() implies is_digit(#[trigger] val[i]) by {
                if i < split {
                    assert(whole[i] == val[i]);
                } else {
                    assert(fraction[i - split] == val[i]);
                }
            }
        }
    }
}

/// No optional packed-decimal field ever decodes to a number that is zero:
/// zero is stored as absent.
pub proof fn lemma_optional_zero_collapses(val: Seq<char>, split: int)
    ensures
        optional_decimal(val, split) matches Ok(Some(d)) ==> scaled_value(d.0, d.1) != 0,
        val.len() > split && decimal_failure(val.take(split), val.skip(split), val) is None
            && scaled_value(val.take(split), val.skip(split)) == 0 ==> optional_decimal(val, split)
            == Ok::<Option<(Seq<char>, Seq<char>)>, Failure>(None),
{
}

/// Why a text is no integer of a given width.
#[derive(Debug, Clone, Copy, PartialEq, Eq, Structural)]
pub enum IntFault {
    /// The text is empty.
    Empty,
    /// The text holds something else than an optional sign and digits.
    InvalidDigit,
    /// The number is above the largest value of the type.
    PosOverflow,
    /// The number is below the smallest value of the type.
    NegOverflow,
}

/// The words for each fault.
pub open spec fn int_fault_text(f: IntFault) -> Seq<char> {
    match f {
        IntFault::Empty => "cannot parse integer from empty string"@,
        IntFault::InvalidDigit => "invalid digit found in string"@,
        IntFault::PosOverflow => "number too large to fit in target type"@,
        IntFault::NegOverflow => "number too small to fit in target type"@,
    }
}

/// Whether the text starts with a sign.
pub open spec fn has_sign(s: Seq<char>) -> bool {
    s.len() > 0 && (s[0] == '+' || s[0] == '-')
}

/// The text without its sign, if it has one.
pub open spec fn unsigned_part(s: Seq<char>) -> Seq<char> {
    if has_sign(s) {
        s.drop_first()
    } else {
        s
    }
}

/// The integer between `lo` and `hi` that `s` writes: an optional sign,
/// then one or more decimal digits and nothing else.
pub open spec fn integer_of(s: Seq<char>, lo: int, hi: int) -> Result<int, IntFault> {
    let digits = unsigned_part(s);
    if s.len() == 0 {
        Err(IntFault::Empty)
    } else if digits.len() == 0 || !all_digits(digits) {
        Err(IntFault::InvalidDigit)
    } else if s[0] == '-' {
        if -digits_value(digits) < lo {
            Err(IntFault::NegOverflow)
        } else {
            Ok(-digits_value(digits))
        }
    } else {
        if digits_value(digits) > hi {
            Err(IntFault::PosOverflow)
        } else {
            Ok(digits_value(digits) as int)
        }
    }
}

/// The error for a field that should hold an integer and does not.
pub open spec fn bad_integer(val: Seq<char>, fault: IntFault) -> Failure {
    Failure {
        kind: EdiErrorKind::MalformedNumber,
        text: "Failed to read '"@ + val + "' as number: "@ + int_fault_text(fault),
    }
}

/// Builds the error for a field that should hold an integer and does not.
pub fn bad_integer_error(val: &str, fault: IntFault) -> (e: EdiError)
    ensures
        e@ == bad_integer(val@, fault),
{
    let mut m = "Failed to read '".to_owned();
    m.append(val);
    m.append("' as number: ");
    match fault {
        IntFault::Empty => m.append("cannot parse integer from empty string"),
        IntFault::InvalidDigit => m.append("invalid digit found in string"),
        IntFault::PosOverflow => m.append("number too large to fit in target type"),
        IntFault::NegOverflow => m.append("number too small to fit in target type"),
    }
    EdiError::new(EdiErrorKind::MalformedNumber, m)
}

/// Sign and magnitude of the integer that `s` writes, the magnitude no
/// larger than `pos_limit` for a number without minus sign and `neg_limit`
/// for one with it.
fn sign_and_magnitude(s: &str, neg_limit: u64, pos_limit: u64) -> (r: Result<
    (bool, u64),
    IntFault,
>)
    ensures
        match r {
            Ok((negative, m)) => {
                &&& integer_of(s@, -(neg_limit as int), pos_limit as int) == Ok::<int, IntFault>(
                    if negative {
                        -(m as int)
                    } else {
                        m as int
                    },
                )
                &&& negative ==> m <= neg_limit
                &&& !negative ==> m <= pos_limit
            },
            Err(f) => integer_of(s@, -(neg_limit as int), pos_limit as int) == Err::<
                int,
                IntFault,
            >(f),
        },
{
    let v = to_chars(s);
    if v.len() == 0 {
        return Err(IntFault::Empty);
    }
    let negative = v[0] == '-';
    let start: usize = if v[0] == '-' || v[0] == '+' {
        1
    } else {
        0
    };
    proof {
        assert(v@.subrange(start as int, v.len() as int) =~= unsigned_part(s@));
    }
    if start == v.len() || !digits_only(&v, start, v.len()) {
        return Err(IntFault::InvalidDigit);
    }
    let limit: u64 = if negative {
        neg_limit
    } else {
        pos_limit
    };
    match magnitude(&v, start, v.len(), limit) {
        Some(m) => Ok((negative, m)),
        None => if negative {
            Err(IntFault::NegOverflow)
        } else {
            Err(IntFault::PosOverflow)
        },
    }
}

/// Reads a 64-bit signed integer: an optional sign, then decimal digits.
pub fn parse_i64(s: &str) -> (r: Result<i64, IntFault>)
    ensures
        match r {
            Ok(v) => integer_of(s@, i64::MIN as int, i64::MAX as int) == Ok::<int, IntFault>(
                v as int,
            ),
            Err(f) => integer_of(s@, i64::MIN as int, i64::MAX as int) == Err::<int, IntFault>(f),
        },
{
    match sign_and_magnitude(s, 9223372036854775808u64, 9223372036854775807u64) {
        Ok((negative, m)) => {
            if !negative {
                Ok(m as i64)
            } else if m == 9223372036854775808u64 {
                Ok(i64::MIN)
            } else {
                Ok(-(m as i64))
            }
        },
        Err(f) => Err(f),
    }
}

/// Reads a 32-bit signed integer: an optional sign, then decimal digits.
pub fn parse_i32(s: &str) -> (r: Result<i32, IntFault>)
    ensures
        match r {
            Ok(v) => integer_of(s@, i32::MIN as int, i32::MAX as int) == Ok::<int, IntFault>(
                v as int,
            ),
            Err(f) => integer_of(s@, i32::MIN as int, i32::MAX as int) == Err::<int, IntFault>(f),
        },
{
    match sign_and_magnitude(s, 2147483648u64, 2147483647u64) {
        Ok((negative, m)) => {
            if !negative {
                Ok(m as i32)
            } else if m == 2147483648u64 {
                Ok(i32::MIN)
            } else {
                Ok(-(m as i32))
            }
        },
        Err(f) => Err(f),
    }
}

} // verus!

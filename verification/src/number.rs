//! The numeric payload of the value model.
//!
//! The engine models a number as a 64-bit signed integer or a distinct
//! not-a-number element. Addition, subtraction, multiplication and negation
//! wrap on overflow; division and remainder truncate toward zero and yield
//! `Nan` for a zero divisor; bitwise operators cast both sides through
//! 32-bit two's-complement integers. Comparisons involving `Nan` are false,
//! and `Nan` is unequal to everything, itself included.

use vstd::prelude::*;

verus! {

/// A number: a 64-bit signed integer, or not-a-number.
#[derive(Clone, Copy, Debug, PartialEq, Eq, Structural)]
pub enum Number {
    Int(i64),
    Nan,
}

/// The magnitude of a 64-bit signed integer.
pub open spec fn abs_spec(a: i64) -> int {
    if a >= 0 {
        a as int
    } else {
        -(a as int)
    }
}

/// The magnitude of `a`, computed without overflow.
pub fn abs_u64(a: i64) -> (r: u64)
    ensures
        r as int == abs_spec(a),
{
    if a >= 0 {
        a as u64
    } else {
        ((-(a + 1)) as u64) + 1
    }
}

/// What addition returns: wrapping integer addition; `Nan` absorbs.
pub open spec fn add_spec(a: Number, b: Number) -> Number {
    match (a, b) {
        (Number::Int(x), Number::Int(y)) => Number::Int(
            vstd::wrapping::i64_specs::wrapping_add(x, y),
        ),
        _ => Number::Nan,
    }
}

/// What subtraction returns: wrapping integer subtraction; `Nan` absorbs.
pub open spec fn sub_spec(a: Number, b: Number) -> Number {
    match (a, b) {
        (Number::Int(x), Number::Int(y)) => Number::Int(
            vstd::wrapping::i64_specs::wrapping_sub(x, y),
        ),
        _ => Number::Nan,
    }
}

/// What multiplication returns: wrapping integer multiplication; `Nan` absorbs.
pub open spec fn mul_spec(a: Number, b: Number) -> Number {
    match (a, b) {
        (Number::Int(x), Number::Int(y)) => Number::Int(
            vstd::wrapping::i64_specs::wrapping_mul(x, y),
        ),
        _ => Number::Nan,
    }
}

/// What division returns: the quotient truncated toward zero, wrapped into
/// 64 bits; `Nan` for a zero divisor or a `Nan` operand.
pub open spec fn div_spec(a: Number, b: Number) -> Number {
    match (a, b) {
        (Number::Int(x), Number::Int(y)) => {
            if y == 0 {
                Number::Nan
            } else {
                let q = abs_spec(x) / abs_spec(y);
                let signed = if (x < 0) != (y < 0) {
                    -q
                } else {
                    q
                };
                Number::Int(vstd::wrapping::i64_specs::signed_crop(signed))
            }
        },
        _ => Number::Nan,
    }
}

/// What remainder returns: the remainder of truncating division, carrying the
/// sign of the dividend; `Nan` for a zero divisor or a `Nan` operand.
pub open spec fn rem_spec(a: Number, b: Number) -> Number {
    match (a, b) {
        (Number::Int(x), Number::Int(y)) => {
            if y == 0 {
                Number::Nan
            } else {
                let r = abs_spec(x) % abs_spec(y);
                let signed = if x < 0 {
                    -r
                } else {
                    r
                };
                Number::Int(signed as i64)
            }
        },
        _ => Number::Nan,
    }
}

/// What negation returns: wrapping integer negation; `Nan` stays `Nan`.
pub open spec fn neg_spec(a: Number) -> Number {
    match a {
        Number::Int(x) => Number::Int(vstd::wrapping::i64_specs::wrapping_sub(0, x)),
        Number::Nan => Number::Nan,
    }
}

/// The 32-bit two's-complement reading of a number; `Nan` reads as zero.
pub open spec fn to_i32_spec(a: Number) -> i32 {
    match a {
        Number::Int(x) => x as i32,
        Number::Nan => 0,
    }
}

/// The unsigned 32-bit reading of a number; `Nan` reads as zero.
pub open spec fn to_u32_spec(a: Number) -> u32 {
    match a {
        Number::Int(x) => x as u32,
        Number::Nan => 0,
    }
}

impl Number {
    /// Wrapping addition; `Nan` absorbs.
    pub fn add(self, other: Number) -> (r: Number)
        ensures
            r == add_spec(self, other),
    {
        match (self, other) {
            (Number::Int(x), Number::Int(y)) => Number::Int(x.wrapping_add(y)),
            _ => Number::Nan,
        }
    }

    /// Wrapping subtraction; `Nan` absorbs.
    pub fn sub(self, other: Number) -> (r: Number)
        ensures
            r == sub_spec(self, other),
    {
        match (self, other) {
            (Number::Int(x), Number::Int(y)) => Number::Int(x.wrapping_sub(y)),
            _ => Number::Nan,
        }
    }

    /// Wrapping multiplication; `Nan` absorbs.
    pub fn mul(self, other: Number) -> (r: Number)
        ensures
            r == mul_spec(self, other),
    {
        match (self, other) {
            (Number::Int(x), Number::Int(y)) => Number::Int(x.wrapping_mul(y)),
            _ => Number::Nan,
        }
    }

    /// Truncating division; division by zero yields `Nan`.
    pub fn div(self, other: Number) -> (r: Number)
        ensures
            r == div_spec(self, other),
    {
        match (self, other) {
            (Number::Int(x), Number::Int(y)) => {
                if y == 0 {
                    Number::Nan
                } else {
                    let xm = abs_u64(x);
                    let ym = abs_u64(y);
                    let q = xm / ym;
                    let negative = (x < 0) != (y < 0);
                    if negative {
                        if q == 0x8000_0000_0000_0000u64 {
                            Number::Int(i64::MIN)
                        } else {
                            Number::Int(-(q as i64))
                        }
                    } else {
                        if q >= 0x8000_0000_0000_0000u64 {
                            Number::Int(i64::MIN)
                        } else {
                            Number::Int(q as i64)
                        }
                    }
                }
            },
            _ => Number::Nan,
        }
    }

    /// Truncating remainder; a zero divisor yields `Nan`.
    pub fn rem(self, other: Number) -> (r: Number)
        ensures
            r == rem_spec(self, other),
    {
        match (self, other) {
            (Number::Int(x), Number::Int(y)) => {
                if y == 0 {
                    Number::Nan
                } else {
                    let xm = abs_u64(x);
                    let ym = abs_u64(y);
                    let m = xm % ym;
                    if x < 0 {
                        Number::Int(-(m as i64))
                    } else {
                        Number::Int(m as i64)
                    }
                }
            },
            _ => Number::Nan,
        }
    }

    /// Wrapping negation; `Nan` stays `Nan`.
    pub fn neg(self) -> (r: Number)
        ensures
            r == neg_spec(self),
    {
        match self {
            Number::Int(x) => Number::Int(0i64.wrapping_sub(x)),
            Number::Nan => Number::Nan,
        }
    }

    /// The 32-bit two's-complement reading; `Nan` reads as zero.
    pub fn to_i32(self) -> (r: i32)
        ensures
            r == to_i32_spec(self),
    {
        match self {
            Number::Int(x) => x as i32,
            Number::Nan => 0,
        }
    }

    /// The unsigned 32-bit reading; `Nan` reads as zero.
    pub fn to_u32(self) -> (r: u32)
        ensures
            r == to_u32_spec(self),
    {
        match self {
            Number::Int(x) => x as u32,
            Number::Nan => 0,
        }
    }

    /// Strictly less than; false when either side is `Nan`.
    pub fn lt(self, other: Number) -> (r: bool)
        ensures
            r == match (self, other) {
                (Number::Int(x), Number::Int(y)) => x < y,
                _ => false,
            },
    {
        match (self, other) {
            (Number::Int(x), Number::Int(y)) => x < y,
            _ => false,
        }
    }

    /// Strictly greater than; false when either side is `Nan`.
    pub fn gt(self, other: Number) -> (r: bool)
        ensures
            r == match (self, other) {
                (Number::Int(x), Number::Int(y)) => x > y,
                _ => false,
            },
    {
        match (self, other) {
            (Number::Int(x), Number::Int(y)) => x > y,
            _ => false,
        }
    }

    /// Less than or equal; false when either side is `Nan`.
    pub fn le(self, other: Number) -> (r: bool)
        ensures
            r == match (self, other) {
                (Number::Int(x), Number::Int(y)) => x <= y,
                _ => false,
            },
    {
        match (self, other) {
            (Number::Int(x), Number::Int(y)) => x <= y,
            _ => false,
        }
    }

    /// Greater than or equal; false when either side is `Nan`.
    pub fn ge(self, other: Number) -> (r: bool)
        ensures
            r == match (self, other) {
                (Number::Int(x), Number::Int(y)) => x >= y,
                _ => false,
            },
    {
        match (self, other) {
            (Number::Int(x), Number::Int(y)) => x >= y,
            _ => false,
        }
    }

    /// Numeric equality; `Nan` is equal to nothing, itself included.
    pub fn eq_num(self, other: Number) -> (r: bool)
        ensures
            r == match (self, other) {
                (Number::Int(x), Number::Int(y)) => x == y,
                _ => false,
            },
    {
        match (self, other) {
            (Number::Int(x), Number::Int(y)) => x == y,
            _ => false,
        }
    }

    /// True of the `Nan` variant.
    pub fn is_nan(self) -> (r: bool)
        ensures
            r == (self matches Number::Nan),
    {
        match self {
            Number::Nan => true,
            _ => false,
        }
    }
}

/// The decimal digit character for `d` in `0..10`.
pub open spec fn digit_char(d: int) -> char {
    if d == 0 {
        '0'
    } else if d == 1 {
        '1'
    } else if d == 2 {
        '2'
    } else if d == 3 {
        '3'
    } else if d == 4 {
        '4'
    } else if d == 5 {
        '5'
    } else if d == 6 {
        '6'
    } else if d == 7 {
        '7'
    } else if d == 8 {
        '8'
    } else {
        '9'
    }
}

/// The decimal digits of a nonnegative integer, most significant first.
pub open spec fn dec_digits(n: int) -> Seq<char>
    decreases n,
{
    if n < 10 {
        seq![digit_char(n)]
    } else {
        dec_digits(n / 10).push(digit_char(n % 10))
    }
}

/// The decimal text of an integer: a minus sign for a negative one, then its
/// digits.
pub open spec fn dec_str(i: int) -> Seq<char> {
    if i < 0 {
        seq!['-'] + dec_digits(-i)
    } else {
        dec_digits(i)
    }
}

/// The text of a number: its decimal form, or the three letters of `NaN`.
pub open spec fn num_str(n: Number) -> Seq<char> {
    match n {
        Number::Int(i) => dec_str(i as int),
        Number::Nan => seq!['N', 'a', 'N'],
    }
}

/// Appends the decimal digit character for `dig` to `s`.
fn append_digit(s: &mut String, dig: u64)
    requires
        dig < 10,
    ensures
        final(s)@ == old(s)@.push(digit_char(dig as int)),
{
    proof {
        reveal_strlit("0");
        reveal_strlit("1");
        reveal_strlit("2");
        reveal_strlit("3");
        reveal_strlit("4");
        reveal_strlit("5");
        reveal_strlit("6");
        reveal_strlit("7");
        reveal_strlit("8");
        reveal_strlit("9");
    }
    if dig == 0 {
        s.append("0");
    } else if dig == 1 {
        s.append("1");
    } else if dig == 2 {
        s.append("2");
    } else if dig == 3 {
        s.append("3");
    } else if dig == 4 {
        s.append("4");
    } else if dig == 5 {
        s.append("5");
    } else if dig == 6 {
        s.append("6");
    } else if dig == 7 {
        s.append("7");
    } else if dig == 8 {
        s.append("8");
    } else {
        s.append("9");
    }
    proof {
        assert(s@ =~= old(s)@.push(digit_char(dig as int)));
    }
}

/// The digit characters of the entries of `d`, read back to front.
pub open spec fn rev_digit_chars(d: Seq<u64>) -> Seq<char> {
    Seq::new(d.len(), |i: int| digit_char(d[d.len() - 1 - i] as int))
}

/// Appends the decimal digits of `m` to `s`.
pub(crate) fn append_u64_digits(s: &mut String, m: u64)
    ensures
        final(s)@ == old(s)@ + dec_digits(m as int),
{
    let mut d: Vec<u64> = Vec::new();
    let mut rest: u64 = m;
    while rest >= 10
        invariant
            (forall|j: int| 0 <= j < d@.len() ==> d@[j] < 10),
            dec_digits(m as int) =~= dec_digits(rest as int) + rev_digit_chars(d@),
        decreases rest,
    {
        let dig = rest % 10;
        let ghost d0 = d@;
        d.push(dig);
        proof {
            assert(rev_digit_chars(d@) =~= seq![digit_char(dig as int)] + rev_digit_chars(d0));
            assert(dec_digits(rest as int) =~= dec_digits(rest as int / 10).push(
                digit_char(rest as int % 10),
            ));
            assert(dec_digits(m as int) =~= dec_digits((rest / 10) as int) + rev_digit_chars(d@));
        }
        rest = rest / 10;
    }
    let ghost d0 = d@;
    append_digit(s, rest);
    proof {
        assert(dec_digits(rest as int) =~= seq![digit_char(rest as int)]);
    }
    let mut i: usize = d.len();
    while i > 0
        invariant
            i <= d@.len(),
            d@ == d0,
            (forall|j: int| 0 <= j < d@.len() ==> d@[j] < 10),
            s@ =~= old(s)@ + seq![digit_char(rest as int)] + rev_digit_chars(d@).take(
                d@.len() - i,
            ),
        decreases i,
    {
        let dig = d[i - 1];
        append_digit(s, dig);
        proof {
            assert(rev_digit_chars(d@)[d@.len() - i] == digit_char(dig as int));
            assert(s@ =~= old(s)@ + seq![digit_char(rest as int)] + rev_digit_chars(d@).take(
                d@.len() - (i - 1),
            ));
        }
        i = i - 1;
    }
    proof {
        assert(rev_digit_chars(d@).take(d@.len() as int) =~= rev_digit_chars(d@));
        assert(dec_digits(m as int) =~= seq![digit_char(rest as int)] + rev_digit_chars(d@));
        assert(s@ =~= old(s)@ + dec_digits(m as int));
    }
}

/// The decimal text of a number, `NaN` included.
pub fn num_to_string(n: Number) -> (r: String)
    ensures
        r@ == num_str(n),
{
    match n {
        Number::Nan => {
            proof {
                reveal_strlit("NaN");
            }
            let mut s = String::new();
            s.append("NaN");
            proof {
                assert(s@ =~= num_str(n));
            }
            s
        },
        Number::Int(i) => {
            let mut s = String::new();
            if i < 0 {
                proof {
                    reveal_strlit("-");
                }
                s.append("-");
                proof {
                    assert(s@ =~= seq!['-']);
                }
            }
            let m = abs_u64(i);
            append_u64_digits(&mut s, m);
            proof {
                assert(s@ =~= num_str(n));
            }
            s
        },
    }
}

/// Whether `c` is a decimal digit character.
pub open spec fn is_digit_char(c: char) -> bool {
    48 <= c as u32 && c as u32 <= 57
}

/// Whether every character of `s` is a decimal digit.
pub open spec fn all_digit_chars(s: Seq<char>) -> bool {
    forall|i: int| 0 <= i < s.len() ==> is_digit_char(#[trigger] s[i])
}

/// The value of a digit string, most significant first.
pub open spec fn digits_val(s: Seq<char>) -> int
    decreases s.len(),
{
    if s.len() == 0 {
        0
    } else {
        digits_val(s.drop_last()) * 10 + (s.last() as u32 - 48)
    }
}

/// What parsing a character sequence as a number returns: an optional minus
/// sign followed by at least one digit, with a value that fits in 64 signed
/// bits; anything else is `Nan`.
pub open spec fn parse_num(s: Seq<char>) -> Number {
    if s.len() > 0 && s[0] == '-' {
        let t = s.skip(1);
        if t.len() > 0 && all_digit_chars(t) && digits_val(t) <= 0x8000_0000_0000_0000 {
            Number::Int((-digits_val(t)) as i64)
        } else {
            Number::Nan
        }
    } else {
        if s.len() > 0 && all_digit_chars(s) && digits_val(s) <= i64::MAX {
            Number::Int(digits_val(s) as i64)
        } else {
            Number::Nan
        }
    }
}

proof fn lemma_digits_val_nonneg(s: Seq<char>)
    requires
        all_digit_chars(s),
    ensures
        digits_val(s) >= 0,
    decreases s.len(),
{
    if s.len() > 0 {
        assert(all_digit_chars(s.drop_last())) by {
            assert(forall|i: int|
                0 <= i < s.drop_last().len() ==> #[trigger] s.drop_last()[i] == s[i]);
        }
        lemma_digits_val_nonneg(s.drop_last());
    }
}

proof fn lemma_digits_val_prefix(s: Seq<char>, i: int)
    requires
        all_digit_chars(s),
        0 <= i <= s.len(),
    ensures
        digits_val(s.take(i)) <= digits_val(s),
    decreases s.len() - i,
{
    if i < s.len() {
        lemma_digits_val_prefix(s, i + 1);
        assert(s.take(i + 1).drop_last() =~= s.take(i));
        assert(all_digit_chars(s.take(i))) by {
            assert(forall|j: int| 0 <= j < s.take(i).len() ==> #[trigger] s.take(i)[j] == s[j]);
        }
        lemma_digits_val_nonneg(s.take(i));
        assert(s.take(i + 1).last() == s[i]);
        assert(digits_val(s.take(i + 1)) == digits_val(s.take(i)) * 10 + (s[i] as u32 - 48));
        assert(digits_val(s.take(i)) <= digits_val(s.take(i)) * 10) by {
            assert(digits_val(s.take(i)) >= 0);
        }
    } else {
        assert(s.take(i) =~= s);
    }
}

/// The digit portion of `s` starting at `from`, parsed as a nonnegative
/// value; `None` when a non-digit occurs, the portion is empty, or the value
/// exceeds `bound`.
fn parse_digits(s: &str, from: usize, n: usize, bound: u64) -> (r: Option<u64>)
    requires
        from <= n,
        n == s@.len(),
    ensures
        match r {
            Some(v) => {
                &&& all_digit_chars(s@.skip(from as int))
                &&& n - from > 0
                &&& v as int == digits_val(s@.skip(from as int))
                &&& v <= bound
            },
            None => {
                !(all_digit_chars(s@.skip(from as int)) && n - from > 0 && digits_val(
                    s@.skip(from as int),
                ) <= bound)
            },
        },
{
    let ghost t = s@.skip(from as int);
    if from == n {
        return None;
    }
    let mut acc: u64 = 0;
    let mut i: usize = from;
    while i < n
        invariant
            from <= i <= n,
            n == s@.len(),
            t == s@.skip(from as int),
            all_digit_chars(t.take(i - from)),
            acc as int == digits_val(t.take(i - from)),
        decreases n - i,
    {
        let c = s.get_char(i);
        let code = c as u32;
        if code < 48 || code > 57 {
            proof {
                assert(t[i - from] == s@[i as int]);
                assert(!is_digit_char(t[i - from]));
            }
            return None;
        }
        let dig = (code - 48) as u64;
        let next = match acc.checked_mul(10) {
            Some(x) => x.checked_add(dig),
            None => None,
        };
        match next {
            Some(x) => {
                acc = x;
                proof {
                    assert(t.take(i + 1 - from).drop_last() =~= t.take(i - from));
                    assert(t.take(i + 1 - from).last() == s@[i as int]);
                }
                i = i + 1;
            },
            None => {
                proof {
                    assert(t.take(i + 1 - from).drop_last() =~= t.take(i - from));
                    assert(t.take(i + 1 - from).last() == s@[i as int]);
                    assert(digits_val(t.take(i + 1 - from)) > u64::MAX);
                    if all_digit_chars(t) {
                        lemma_digits_val_prefix(t, i + 1 - from);
                        assert(digits_val(t) > bound);
                    }
                }
                return None;
            },
        }
    }
    proof {
        assert(t.take(n - from) =~= t);
    }
    if acc <= bound {
        Some(acc)
    } else {
        None
    }
}

/// Parses the text of `s` as a number: an optional minus sign followed by
/// decimal digits whose value fits in 64 signed bits; anything else is `Nan`.
pub fn str_to_number(s: &str) -> (r: Number)
    ensures
        r == parse_num(s@),
{
    let n = s.unicode_len();
    if n == 0 {
        return Number::Nan;
    }
    let first = s.get_char(0);
    if first == '-' {
        match parse_digits(s, 1, n, 0x8000_0000_0000_0000u64) {
            Some(v) => {
                if v == 0x8000_0000_0000_0000u64 {
                    Number::Int(i64::MIN)
                } else {
                    Number::Int(-(v as i64))
                }
            },
            None => Number::Nan,
        }
    } else {
        match parse_digits(s, 0, n, i64::MAX as u64) {
            Some(v) => {
                proof {
                    assert(s@.skip(0) =~= s@);
                }
                Number::Int(v as i64)
            },
            None => {
                proof {
                    assert(s@.skip(0) =~= s@);
                }
                Number::Nan
            },
        }
    }
}

} // verus!

//! Numbers in G-code parameters: a sign, digits and an optional fraction,
//! without exponent (so that `X12E5` reads as `X12` then `E5`), or one of
//! `nan`, `inf`, `infinity` in any case.

use vstd::prelude::*;
use vstd::string::StringSliceAdditionalSpecFns;
use vstd::utf8::encode_utf8_valid_utf8;

use crate::text::lemma_cut_after_ascii;
use crate::text::rest_of;

verus! {

/// A parameter value as written: a decimal, kept exactly, or a special form.
#[derive(Clone, Debug, PartialEq, Eq)]
pub enum Number {
    /// `±whole.fraction`. `whole` holds ASCII digits without leading zeros,
    /// `fraction` ASCII digits without trailing zeros, so equal values
    /// compare equal; the sign is kept as written (`-0` is negative).
    Finite { negative: bool, whole: Vec<u8>, fraction: Vec<u8> },
    /// `nan`
    NaN,
    /// `inf` or `infinity`
    Infinity,
}

/// The mathematical content of a `Number`.
pub enum NumberView {
    Finite { negative: bool, whole: Seq<u8>, fraction: Seq<u8> },
    NaN,
    Infinity,
}

impl View for Number {
    type V = NumberView;

    open spec fn view(&self) -> NumberView {
        match self {
            Number::Finite { negative, whole, fraction } => NumberView::Finite {
                negative: *negative,
                whole: whole@,
                fraction: fraction@,
            },
            Number::NaN => NumberView::NaN,
            Number::Infinity => NumberView::Infinity,
        }
    }
}

pub open spec fn is_digit(c: u8) -> bool {
    0x30 <= c <= 0x39
}

/// The first index at or after `p` that does not hold a digit.
pub open spec fn digits_end(s: Seq<u8>, p: int) -> int
    decreases s.len() - p,
{
    if p < 0 || p >= s.len() || !is_digit(s[p]) {
        p
    } else {
        digits_end(s, p + 1)
    }
}

/// Digits without their leading zeros.
pub open spec fn strip_leading_zeros(d: Seq<u8>) -> Seq<u8>
    decreases d.len(),
{
    if d.len() > 0 && d[0] == 0x30 {
        strip_leading_zeros(d.drop_first())
    } else {
        d
    }
}

/// Digits without their trailing zeros.
pub open spec fn strip_trailing_zeros(d: Seq<u8>) -> Seq<u8>
    decreases d.len(),
{
    if d.len() > 0 && d.last() == 0x30 {
        strip_trailing_zeros(d.drop_last())
    } else {
        d
    }
}

/// ASCII lower case.
pub open spec fn lower(c: u8) -> u8 {
    if 0x41 <= c <= 0x5a {
        (c + 32) as u8
    } else {
        c
    }
}

/// `word` (lower case) stands at `p`, letters compared without case.
pub open spec fn tag_no_case(s: Seq<u8>, p: int, word: Seq<u8>) -> bool {
    &&& 0 <= p
    &&& p + word.len() <= s.len()
    &&& forall|i: int| 0 <= i < word.len() ==> lower(#[trigger] s[p + i]) == word[i]
}

/// The finite number `±d[.f]` or `±.f` that starts at `p`, and where it ends.
pub open spec fn spec_decimal(s: Seq<u8>, p: int) -> Option<(NumberView, int)> {
    let signed = p < s.len() && (s[p] == 0x2b || s[p] == 0x2d);
    let negative = p < s.len() && s[p] == 0x2d;
    let q = if signed { p + 1 } else { p };
    let e1 = digits_end(s, q);
    if e1 > q {
        if e1 < s.len() && s[e1] == 0x2e {
            let e2 = digits_end(s, e1 + 1);
            Some((NumberView::Finite {
                negative,
                whole: strip_leading_zeros(s.subrange(q, e1)),
                fraction: strip_trailing_zeros(s.subrange(e1 + 1, e2)),
            }, e2))
        } else {
            Some((NumberView::Finite {
                negative,
                whole: strip_leading_zeros(s.subrange(q, e1)),
                fraction: seq![],
            }, e1))
        }
    } else if q < s.len() && s[q] == 0x2e && digits_end(s, q + 1) > q + 1 {
        let e2 = digits_end(s, q + 1);
        Some((NumberView::Finite {
            negative,
            whole: seq![],
            fraction: strip_trailing_zeros(s.subrange(q + 1, e2)),
        }, e2))
    } else {
        None
    }
}

/// The number that starts at `p` (a decimal first, then `nan`,
/// `infinity`, `inf`), and where it ends.
pub open spec fn spec_number(s: Seq<u8>, p: int) -> Option<(NumberView, int)> {
    if spec_decimal(s, p) is Some {
        spec_decimal(s, p)
    } else if tag_no_case(s, p, seq![0x6eu8, 0x61u8, 0x6eu8]) {
        Some((NumberView::NaN, p + 3))
    } else if tag_no_case(s, p, seq![0x69u8, 0x6eu8, 0x66u8, 0x69u8, 0x6eu8, 0x69u8, 0x74u8, 0x79u8]) {
        Some((NumberView::Infinity, p + 8))
    } else if tag_no_case(s, p, seq![0x69u8, 0x6eu8, 0x66u8]) {
        Some((NumberView::Infinity, p + 3))
    } else {
        None
    }
}

/// Finds the end of the run of digits that starts at `p`.
pub fn scan_digits(s: &[u8], p: usize) -> (r: usize)
    requires
        p <= s@.len(),
    ensures
        r == digits_end(s@, p as int),
        p <= r <= s@.len(),
        forall|i: int| p <= i < r ==> is_digit(#[trigger] s@[i]),
{
    let mut i = p;
    while i < s.len() && 0x30 <= s[i] && s[i] <= 0x39
        invariant
            p <= i <= s@.len(),
            digits_end(s@, p as int) == digits_end(s@, i as int),
            forall|j: int| p <= j < i ==> is_digit(#[trigger] s@[j]),
        decreases s@.len() - i,
    {
        i = i + 1;
    }
    i
}

/// The digits `s[a..b]` without leading zeros.
fn whole_digits(s: &[u8], a: usize, b: usize) -> (r: Vec<u8>)
    requires
        a <= b <= s@.len(),
        forall|i: int| a <= i < b ==> is_digit(#[trigger] s@[i]),
    ensures
        r@ == strip_leading_zeros(s@.subrange(a as int, b as int)),
{
    let mut i = a;
    while i < b && s[i] == 0x30
        invariant
            a <= i <= b,
            b <= s@.len(),
            strip_leading_zeros(s@.subrange(a as int, b as int)) == strip_leading_zeros(s@.subrange(i as int, b as int)),
        decreases b - i,
    {
        proof {
            let d = s@.subrange(i as int, b as int);
            assert(d.drop_first() =~= s@.subrange(i + 1, b as int));
        }
        i = i + 1;
    }
    proof {
        let d = s@.subrange(i as int, b as int);
        assert(!(d.len() > 0 && d[0] == 0x30));
    }
    vstd::slice::slice_to_vec(&s[i..b])
}

/// The digits `s[a..b]` without trailing zeros.
fn fraction_digits(s: &[u8], a: usize, b: usize) -> (r: Vec<u8>)
    requires
        a <= b <= s@.len(),
    ensures
        r@ == strip_trailing_zeros(s@.subrange(a as int, b as int)),
{
    let mut j = b;
    while j > a && s[j - 1] == 0x30
        invariant
            a <= j <= b,
            b <= s@.len(),
            strip_trailing_zeros(s@.subrange(a as int, b as int)) == strip_trailing_zeros(s@.subrange(a as int, j as int)),
        decreases j - a,
    {
        proof {
            let d = s@.subrange(a as int, j as int);
            assert(d.drop_last() =~= s@.subrange(a as int, j - 1));
        }
        j = j - 1;
    }
    proof {
        let d = s@.subrange(a as int, j as int);
        assert(!(d.len() > 0 && d.last() == 0x30));
    }
    vstd::slice::slice_to_vec(&s[a..j])
}

fn lower_byte(c: u8) -> (r: u8)
    ensures
        r == lower(c),
{
    if 0x41 <= c && c <= 0x5a {
        c + 32
    } else {
        c
    }
}

/// Whether `word` (lower case) stands at `p`, letters compared without case.
fn has_tag_no_case(s: &[u8], p: usize, word: &[u8]) -> (r: bool)
    requires
        p <= s@.len(),
    ensures
        r == tag_no_case(s@, p as int, word@),
{
    if s.len() - p < word.len() {
        return false;
    }
    let mut i: usize = 0;
    while i < word.len()
        invariant
            p <= s@.len() <= usize::MAX,
            p + word@.len() <= s@.len(),
            0 <= i <= word@.len(),
            forall|j: int| 0 <= j < i ==> lower(#[trigger] s@[p + j]) == word@[j],
        decreases word@.len() - i,
    {
        if lower_byte(s[p + i]) != word[i] {
            return false;
        }
        i = i + 1;
    }
    true
}

/// Reads the number that starts at `p`; returns it and where it ends.
pub fn parse_number(s: &[u8], p: usize) -> (r: Option<(Number, usize)>)
    requires
        p <= s@.len(),
    ensures
        match spec_number(s@, p as int) {
            Some((v, e)) => r matches Some((n, e2)) && n@ == v && e2 == e,
            None => r is None,
        },
        r matches Some((_, e)) ==> p < e <= s@.len() && s@[e - 1] < 128,
{
    let len = s.len();
    let signed = p < len && (s[p] == 0x2b || s[p] == 0x2d);
    let negative = p < len && s[p] == 0x2d;
    let q = if signed { p + 1 } else { p };
    let e1 = scan_digits(s, q);
    if e1 > q {
        let whole = whole_digits(s, q, e1);
        if e1 < len && s[e1] == 0x2e {
            let e2 = scan_digits(s, e1 + 1);
            let fraction = fraction_digits(s, e1 + 1, e2);
            return Some((Number::Finite { negative, whole, fraction }, e2));
        } else {
            let fraction: Vec<u8> = Vec::new();
            assert(fraction@ =~= Seq::<u8>::empty());
            return Some((Number::Finite { negative, whole, fraction }, e1));
        }
    }
    if q < len && s[q] == 0x2e {
        let e2 = scan_digits(s, q + 1);
        if e2 > q + 1 {
            let fraction = fraction_digits(s, q + 1, e2);
            let whole: Vec<u8> = Vec::new();
            assert(whole@ =~= Seq::<u8>::empty());
            return Some((Number::Finite { negative, whole, fraction }, e2));
        }
    }
    let nan: Vec<u8> = vec![0x6e, 0x61, 0x6e];
    let infinity: Vec<u8> = vec![0x69, 0x6e, 0x66, 0x69, 0x6e, 0x69, 0x74, 0x79];
    let inf: Vec<u8> = vec![0x69, 0x6e, 0x66];
    assert(nan@ =~= seq![0x6eu8, 0x61u8, 0x6eu8]);
    assert(infinity@ =~= seq![0x69u8, 0x6eu8, 0x66u8, 0x69u8, 0x6eu8, 0x69u8, 0x74u8, 0x79u8]);
    assert(inf@ =~= seq![0x69u8, 0x6eu8, 0x66u8]);
    if has_tag_no_case(s, p, nan.as_slice()) {
        assert(lower(s@[p + 2]) == nan@[2]);
        return Some((Number::NaN, p + 3));
    }
    if has_tag_no_case(s, p, infinity.as_slice()) {
        assert(lower(s@[p + 7]) == infinity@[7]);
        return Some((Number::Infinity, p + 8));
    }
    if has_tag_no_case(s, p, inf.as_slice()) {
        assert(lower(s@[p + 2]) == inf@[2]);
        return Some((Number::Infinity, p + 3));
    }
    None
}

/// The value of a run of ASCII digits.
pub open spec fn digits_value(d: Seq<u8>) -> int
    decreases d.len(),
{
    if d.len() == 0 {
        0
    } else {
        10 * digits_value(d.drop_last()) + (d.last() - 0x30)
    }
}

proof fn lemma_digits_value_nonneg(d: Seq<u8>)
    requires
        forall|i: int| 0 <= i < d.len() ==> is_digit(#[trigger] d[i]),
    ensures
        digits_value(d) >= 0,
    decreases d.len(),
{
    if d.len() > 0 {
        lemma_digits_value_nonneg(d.drop_last());
    }
}

proof fn lemma_digits_value_grows(s: Seq<u8>, a: int, i: int, b: int)
    requires
        0 <= a <= i <= b <= s.len(),
        forall|j: int| a <= j < b ==> is_digit(#[trigger] s[j]),
    ensures
        digits_value(s.subrange(a, i)) <= digits_value(s.subrange(a, b)),
    decreases b - i,
{
    if i < b {
        lemma_digits_value_grows(s, a, i, b - 1);
        let t = s.subrange(a, b);
        assert(t.drop_last() =~= s.subrange(a, b - 1));
        lemma_digits_value_nonneg(s.subrange(a, b - 1));
    }
}

/// The value of the digits `s[a..b]`, when it is at most `limit`.
fn bounded_digits_value(s: &[u8], a: usize, b: usize, limit: u128) -> (r: Option<u128>)
    requires
        a <= b <= s@.len(),
        forall|i: int| a <= i < b ==> is_digit(#[trigger] s@[i]),
        9 <= limit,
    ensures
        digits_value(s@.subrange(a as int, b as int)) <= limit ==> r == Some(digits_value(s@.subrange(a as int, b as int)) as u128),
        digits_value(s@.subrange(a as int, b as int)) > limit ==> r is None,
{
    let mut v: u128 = 0;
    let mut i = a;
    while i < b
        invariant
            a <= i <= b <= s@.len(),
            forall|j: int| a <= j < b ==> is_digit(#[trigger] s@[j]),
            v as int == digits_value(s@.subrange(a as int, i as int)),
            v <= limit,
            9 <= limit,
        decreases b - i,
    {
        let d = (s[i] - 0x30) as u128;
        proof {
            let t = s@.subrange(a as int, i + 1);
            assert(t.drop_last() =~= s@.subrange(a as int, i as int));
            assert(t.last() == s@[i as int]);
        }
        if v > (limit - d) / 10 {
            proof {
                assert(10 * v + d > limit) by (nonlinear_arith)
                    requires
                        v > (limit - d) / 10,
                        d <= 9,
                        9 <= limit,
                ;
                lemma_digits_value_grows(s@, a as int, i + 1, b as int);
            }
            return None;
        }
        v = 10 * v + d;
        i = i + 1;
    }
    Some(v)
}

/// The signed integer (optional `+` or `-`, then digits) that starts at
/// `p`, and where it ends; `None` when it does not fit in an `i128`.
pub open spec fn spec_int(s: Seq<u8>, p: int) -> Option<(int, int)> {
    let signed = p < s.len() && (s[p] == 0x2b || s[p] == 0x2d);
    let negative = p < s.len() && s[p] == 0x2d;
    let q = if signed { p + 1 } else { p };
    let e = digits_end(s, q);
    let v = digits_value(s.subrange(q, e));
    let value = if negative { -v } else { v };
    if e == q || value < i128::MIN || value > i128::MAX {
        None
    } else {
        Some((value, e))
    }
}

/// Reads the signed integer that starts at `p`; returns it and where it ends.
pub fn parse_int(s: &[u8], p: usize) -> (r: Option<(i128, usize)>)
    requires
        p <= s@.len(),
    ensures
        match spec_int(s@, p as int) {
            Some((v, e)) => r matches Some((n, e2)) && n as int == v && e2 == e,
            None => r is None,
        },
        r matches Some((_, e)) ==> p < e <= s@.len() && is_digit(s@[e - 1]),
{
    let len = s.len();
    let signed = p < len && (s[p] == 0x2b || s[p] == 0x2d);
    let negative = p < len && s[p] == 0x2d;
    let q = if signed { p + 1 } else { p };
    let e = scan_digits(s, q);
    if e == q {
        return None;
    }
    proof {
        lemma_digits_value_nonneg(s@.subrange(q as int, e as int));
    }
    let limit: u128 = if negative { 0x8000_0000_0000_0000_0000_0000_0000_0000 } else { 0x7fff_ffff_ffff_ffff_ffff_ffff_ffff_ffff };
    match bounded_digits_value(s, q, e, limit) {
        None => None,
        Some(v) => {
            if negative {
                if v == 0x8000_0000_0000_0000_0000_0000_0000_0000 {
                    Some((i128::MIN, e))
                } else {
                    Some((-(v as i128), e))
                }
            } else {
                Some((v as i128, e))
            }
        },
    }
}

/// The value of a run of digits as a `u16`, `None` when it is larger.
pub fn parse_u16_digits(s: &[u8], a: usize, b: usize) -> (r: Option<u16>)
    requires
        a <= b <= s@.len(),
        forall|i: int| a <= i < b ==> is_digit(#[trigger] s@[i]),
    ensures
        digits_value(s@.subrange(a as int, b as int)) <= 0xffff ==> r == Some(digits_value(s@.subrange(a as int, b as int)) as u16),
        digits_value(s@.subrange(a as int, b as int)) > 0xffff ==> r is None,
{
    proof {
        lemma_digits_value_nonneg(s@.subrange(a as int, b as int));
    }
    match bounded_digits_value(s, a, b, 0xffff) {
        Some(v) => Some(v as u16),
        None => None,
    }
}

/// Some digit is not zero.
pub open spec fn has_nonzero_digit(d: Seq<u8>) -> bool {
    exists|i: int| 0 <= i < d.len() && d[i] != 0x30
}

/// The value is greater than zero (`nan` is not).
pub open spec fn spec_is_positive(v: NumberView) -> bool {
    match v {
        NumberView::Finite { negative, whole, fraction } => !negative && (has_nonzero_digit(whole)
            || has_nonzero_digit(fraction)),
        NumberView::NaN => false,
        NumberView::Infinity => true,
    }
}

/// The value is zero or less (`nan` is not).
pub open spec fn spec_is_at_most_zero(v: NumberView) -> bool {
    match v {
        NumberView::Finite { negative, whole, fraction } => negative || !(has_nonzero_digit(whole)
            || has_nonzero_digit(fraction)),
        NumberView::NaN => false,
        NumberView::Infinity => false,
    }
}

fn nonzero_digit(d: &Vec<u8>) -> (r: bool)
    ensures
        r == has_nonzero_digit(d@),
{
    let mut i: usize = 0;
    while i < d.len()
        invariant
            0 <= i <= d@.len(),
            forall|j: int| 0 <= j < i ==> d@[j] == 0x30,
        decreases d@.len() - i,
    {
        if d[i] != 0x30 {
            return true;
        }
        i = i + 1;
    }
    false
}

impl Number {
    /// Whether the value is greater than zero: for `E`, the extruder pushes
    /// filament.
    pub fn is_positive(&self) -> (r: bool)
        ensures
            r == spec_is_positive(self@),
    {
        match self {
            Number::Finite { negative, whole, fraction } => !*negative && (nonzero_digit(whole) || nonzero_digit(fraction)),
            Number::NaN => false,
            Number::Infinity => true,
        }
    }

    /// Whether the value is zero or less: for `E` in `G92`, the end of an
    /// extrusion stroke.
    pub fn is_at_most_zero(&self) -> (r: bool)
        ensures
            r == spec_is_at_most_zero(self@),
    {
        match self {
            Number::Finite { negative, whole, fraction } => *negative || !(nonzero_digit(whole) || nonzero_digit(fraction)),
            Number::NaN => false,
            Number::Infinity => false,
        }
    }
}

/// Reads the number at the start of `line`: sign, digits and fraction
/// without exponent, or `nan`, `inf`, `infinity`; returns what follows.
pub fn double_no_exponent(line: &str) -> (r: Option<(&str, Number)>)
    ensures
        match spec_number(line.spec_bytes(), 0) {
            Some((v, e)) => r matches Some((rest, n)) && n@ == v
                && rest.spec_bytes() == line.spec_bytes().subrange(e, line.spec_bytes().len() as int),
            None => r is None,
        },
{
    let s = line.as_bytes();
    match parse_number(s, 0) {
        Some((n, e)) => {
            proof {
                encode_utf8_valid_utf8(line@);
                lemma_cut_after_ascii(s@, e as int);
            }
            Some((rest_of(line, e), n))
        },
        None => None,
    }
}

} // verus!

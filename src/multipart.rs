//! Parameters of `M486`, the directive that names, starts and cancels the
//! objects of a multi-object print.

use vstd::prelude::*;
use vstd::string::StringSliceAdditionalSpecFns;
use vstd::utf8::encode_utf8;
use vstd::utf8::encode_utf8_valid_utf8;

use crate::number::parse_int;
use crate::number::spec_int;
use crate::params::skip_spaces;
use crate::params::skip_spaces_at;
use crate::text::cut_point;
use crate::text::lemma_cut_after_ascii;
use crate::text::rest_of;
use crate::text::string_slice;

verus! {

/// A parameter of `M486`.
#[derive(Clone, Debug, PartialEq, Eq)]
pub enum MultiPartVal {
    /// `A<name>`: the name of the object, up to the end of the line.
    A(String),
    /// `C`: cancel the current object.
    C,
    /// `P<n>`: cancel object `n`.
    P(i128),
    /// `S<n> [A"<name>"]`: object `n` starts now (`-1`: a non-object
    /// feature such as a purge tower), with an optional name.
    S(i128, Option<String>),
    /// `T<n>`: the print has `n` objects.
    T(i128),
    /// `U<n>`: un-cancel object `n`.
    U(i128),
}

/// The content of a `MultiPartVal`, names as UTF-8 bytes.
pub enum MultiPartView {
    A(Seq<u8>),
    C,
    P(int),
    S(int, Option<Seq<u8>>),
    T(int),
    U(int),
}

impl View for MultiPartVal {
    type V = MultiPartView;

    open spec fn view(&self) -> MultiPartView {
        match self {
            MultiPartVal::A(name) => MultiPartView::A(encode_utf8(name@)),
            MultiPartVal::C => MultiPartView::C,
            MultiPartVal::P(n) => MultiPartView::P(*n as int),
            MultiPartVal::S(n, name) => MultiPartView::S(*n as int, match name {
                Some(t) => Some(encode_utf8(t@)),
                None => None,
            }),
            MultiPartVal::T(n) => MultiPartView::T(*n as int),
            MultiPartVal::U(n) => MultiPartView::U(*n as int),
        }
    }
}

/// The first index at or after `p` that holds `c`, or the length.
pub open spec fn find_byte(s: Seq<u8>, p: int, c: u8) -> int
    decreases s.len() - p,
{
    if p < 0 || p >= s.len() || s[p] == c {
        p
    } else {
        find_byte(s, p + 1, c)
    }
}

/// A name in double quotes, optionally preceded by spaces and `A`: where
/// its text starts and ends, and where the closing quote ends.
pub open spec fn spec_quoted_name(s: Seq<u8>, p: int) -> Option<(int, int, int)> {
    let q = skip_spaces(s, p);
    let q2 = if 0 <= q < s.len() && s[q] == 0x41 { q + 1 } else { q };
    if 0 <= q2 < s.len() && s[q2] == 0x22 {
        let c = find_byte(s, q2 + 1, 0x22);
        if c < s.len() {
            Some((q2 + 1, c, c + 1))
        } else {
            None
        }
    } else {
        None
    }
}

/// The `M486` parameter at `p` (after optional spaces), and where it ends.
pub open spec fn spec_multipart(s: Seq<u8>, p: int) -> Option<(MultiPartView, int)> {
    let q = skip_spaces(s, p);
    if q < 0 || q >= s.len() {
        None
    } else if s[q] == 0x43 {
        Some((MultiPartView::C, q + 1))
    } else if s[q] == 0x50 || s[q] == 0x53 || s[q] == 0x54 || s[q] == 0x55 {
        match spec_int(s, q + 1) {
            None => None,
            Some((v, e)) => if s[q] == 0x50 {
                Some((MultiPartView::P(v), e))
            } else if s[q] == 0x54 {
                Some((MultiPartView::T(v), e))
            } else if s[q] == 0x55 {
                Some((MultiPartView::U(v), e))
            } else {
                match spec_quoted_name(s, e) {
                    Some((a, b, f)) => Some((MultiPartView::S(v, Some(s.subrange(a, b))), f)),
                    None => Some((MultiPartView::S(v, None), e)),
                }
            },
        }
    } else {
        None
    }
}

/// `A`, then a name up to a line feed, which is consumed too.
pub open spec fn spec_mp_a(s: Seq<u8>, p: int) -> Option<(MultiPartView, int)> {
    if 0 <= p < s.len() && s[p] == 0x41 {
        let c = find_byte(s, p + 1, 0x0a);
        if c < s.len() {
            Some((MultiPartView::A(s.subrange(p + 1, c)), c + 1))
        } else {
            None
        }
    } else {
        None
    }
}

fn find_byte_at(s: &[u8], p: usize, c: u8) -> (r: usize)
    requires
        p <= s@.len(),
    ensures
        r == find_byte(s@, p as int, c),
        p <= r <= s@.len(),
        r < s@.len() ==> s@[r as int] == c,
{
    let mut i = p;
    while i < s.len() && s[i] != c
        invariant
            p <= i <= s@.len(),
            find_byte(s@, p as int, c) == find_byte(s@, i as int, c),
        decreases s@.len() - i,
    {
        i = i + 1;
    }
    i
}

fn parse_quoted_name(s: &[u8], p: usize) -> (r: Option<(usize, usize, usize)>)
    requires
        p <= s@.len(),
    ensures
        match spec_quoted_name(s@, p as int) {
            Some((a, b, f)) => r matches Some((a2, b2, f2)) && a2 == a && b2 == b && f2 == f,
            None => r is None,
        },
        r matches Some((a, b, f)) ==> p < a <= b < f <= s@.len() && f == b + 1 && s@[a - 1] == 0x22 && s@[b as int] == 0x22,
{
    let q = skip_spaces_at(s, p);
    let q2 = if q < s.len() && s[q] == 0x41 { q + 1 } else { q };
    if q2 < s.len() && s[q2] == 0x22 {
        let c = find_byte_at(s, q2 + 1, 0x22);
        if c < s.len() {
            return Some((q2 + 1, c, c + 1));
        }
    }
    None
}

/// Reads the `M486` parameter at `p` of `line`, whose bytes are `s`.
pub fn parse_multipart(line: &str, s: &[u8], p: usize) -> (r: Option<(MultiPartVal, usize)>)
    requires
        s@ == line.spec_bytes(),
        p <= s@.len(),
    ensures
        match spec_multipart(s@, p as int) {
            Some((v, e)) => r matches Some((m, e2)) && m@ == v && e2 == e,
            None => r is None,
        },
        r matches Some((_, e)) ==> p < e <= s@.len() && s@[e - 1] < 128,
{
    let q = skip_spaces_at(s, p);
    if q >= s.len() {
        return None;
    }
    let c = s[q];
    if c == 0x43 {
        return Some((MultiPartVal::C, q + 1));
    }
    if !(c == 0x50 || c == 0x53 || c == 0x54 || c == 0x55) {
        return None;
    }
    let (v, e) = match parse_int(s, q + 1) {
        Some(x) => x,
        None => return None,
    };
    if c == 0x50 {
        Some((MultiPartVal::P(v), e))
    } else if c == 0x54 {
        Some((MultiPartVal::T(v), e))
    } else if c == 0x55 {
        Some((MultiPartVal::U(v), e))
    } else {
        match parse_quoted_name(s, e) {
            Some((a, b, f)) => {
                proof {
                    encode_utf8_valid_utf8(line@);
                    lemma_cut_after_ascii(s@, a as int);
                }
                let name = string_slice(line, a, b);
                Some((MultiPartVal::S(v, Some(name)), f))
            },
            None => Some((MultiPartVal::S(v, None), e)),
        }
    }
}

/// Parses `A<name>` up to and including a line feed, at the start of `line`.
pub fn parse_mp_a(line: &str) -> (r: Option<(&str, MultiPartVal)>)
    ensures
        match spec_mp_a(line.spec_bytes(), 0) {
            Some((v, e)) => r matches Some((rest, m)) && m@ == v
                && rest.spec_bytes() == line.spec_bytes().subrange(e, line.spec_bytes().len() as int),
            None => r is None,
        },
{
    let s = line.as_bytes();
    if s.len() == 0 || s[0] != 0x41 {
        return None;
    }
    let c = find_byte_at(s, 1, 0x0a);
    if c >= s.len() {
        return None;
    }
    proof {
        encode_utf8_valid_utf8(line@);
        lemma_cut_after_ascii(s@, 1);
        lemma_cut_after_ascii(s@, c + 1);
    }
    let name = string_slice(line, 1, c);
    Some((rest_of(line, c + 1), MultiPartVal::A(name)))
}

fn parse_mp_letter(line: &str, letter: u8) -> (r: Option<(&str, MultiPartVal)>)
    ensures
        match spec_multipart(line.spec_bytes(), 0) {
            Some((v, e)) => {
                let q = skip_spaces(line.spec_bytes(), 0);
                if line.spec_bytes()[q] == letter {
                    r matches Some((rest, m)) && m@ == v
                        && rest.spec_bytes() == line.spec_bytes().subrange(e, line.spec_bytes().len() as int)
                } else {
                    r is None
                }
            },
            None => r is None,
        },
{
    let s = line.as_bytes();
    let q = skip_spaces_at(s, 0);
    match parse_multipart(line, s, 0) {
        Some((m, e)) => {
            if s[q] != letter {
                return None;
            }
            proof {
                encode_utf8_valid_utf8(line@);
                lemma_cut_after_ascii(s@, e as int);
            }
            Some((rest_of(line, e), m))
        },
        None => None,
    }
}

/// Parses `C` (after optional spaces) at the start of `line`.
pub fn parse_mp_c(line: &str) -> (r: Option<(&str, MultiPartVal)>)
    ensures
        match spec_multipart(line.spec_bytes(), 0) {
            Some((v, e)) => if line.spec_bytes()[skip_spaces(line.spec_bytes(), 0)] == 0x43 {
                r matches Some((rest, m)) && m@ == v
                    && rest.spec_bytes() == line.spec_bytes().subrange(e, line.spec_bytes().len() as int)
            } else {
                r is None
            },
            None => r is None,
        },
{
    parse_mp_letter(line, 0x43)
}

/// Parses `S<n>` with an optional quoted name (after optional spaces) at
/// the start of `line`.
pub fn parse_mp_s(line: &str) -> (r: Option<(&str, MultiPartVal)>)
    ensures
        match spec_multipart(line.spec_bytes(), 0) {
            Some((v, e)) => if line.spec_bytes()[skip_spaces(line.spec_bytes(), 0)] == 0x53 {
                r matches Some((rest, m)) && m@ == v
                    && rest.spec_bytes() == line.spec_bytes().subrange(e, line.spec_bytes().len() as int)
            } else {
                r is None
            },
            None => r is None,
        },
{
    parse_mp_letter(line, 0x53)
}

} // verus!

//! Cutting a line of text where the G-code grammar stops.

use vstd::prelude::*;
use vstd::string::StringSliceAdditionalSpecFns;
use vstd::utf8::encode_utf8;
use vstd::utf8::encode_utf8_valid_utf8;
use vstd::utf8::is_char_boundary;
use vstd::utf8::is_char_boundary_iff_not_is_continuation_byte;
use vstd::utf8::is_char_boundary_start_end_of_seq;
use vstd::utf8::is_continuation_byte;
use vstd::utf8::length_of_first_scalar;
use vstd::utf8::pop_first_scalar;
use vstd::utf8::valid_utf8;
use vstd::utf8::valid_utf8_split;

verus! {

/// A position where text may be cut: the end, or before a byte that does
/// not continue a character.
pub open spec fn cut_point(s: Seq<u8>, i: int) -> bool {
    0 <= i <= s.len() && (i == s.len() || !is_continuation_byte(s[i]))
}

proof fn lemma_boundary_after_ascii(bytes: Seq<u8>, i: int)
    requires
        valid_utf8(bytes),
        0 <= i < bytes.len(),
        is_char_boundary(bytes, i),
        bytes[i] < 128,
    ensures
        is_char_boundary(bytes, i + 1),
    decreases bytes.len(),
{
    let w = length_of_first_scalar(bytes);
    let pop = pop_first_scalar(bytes);
    assert(valid_utf8(pop));
    if i == 0 {
        assert(w == 1);
        assert(is_char_boundary(pop, 0));
    } else {
        assert(is_char_boundary(pop, i - w));
        assert(pop[i - w] == bytes[i]);
        lemma_boundary_after_ascii(pop, i - w);
    }
}

/// Right after an ASCII byte, valid UTF-8 may be cut.
pub proof fn lemma_cut_after_ascii(bytes: Seq<u8>, i: int)
    requires
        valid_utf8(bytes),
        1 <= i <= bytes.len(),
        bytes[i - 1] < 128,
    ensures
        cut_point(bytes, i),
{
    is_char_boundary_iff_not_is_continuation_byte(bytes, i - 1);
    lemma_boundary_after_ascii(bytes, i - 1);
    if i < bytes.len() {
        is_char_boundary_iff_not_is_continuation_byte(bytes, i);
    }
}

/// Valid UTF-8 may be cut at its start.
pub proof fn lemma_cut_at_start(bytes: Seq<u8>)
    requires
        valid_utf8(bytes),
    ensures
        cut_point(bytes, 0),
{
    if bytes.len() > 0 {
        is_char_boundary_iff_not_is_continuation_byte(bytes, 0);
    }
}

/// In valid UTF-8 a cut point is a character boundary.
proof fn lemma_cut_is_boundary(bytes: Seq<u8>, i: int)
    requires
        valid_utf8(bytes),
        cut_point(bytes, i),
    ensures
        is_char_boundary(bytes, i),
{
    is_char_boundary_start_end_of_seq(bytes);
    if i < bytes.len() {
        is_char_boundary_iff_not_is_continuation_byte(bytes, i);
    }
}

/// The part of `line` between two cut points.
pub fn str_slice(line: &str, a: usize, b: usize) -> (r: &str)
    requires
        a <= b,
        cut_point(line.spec_bytes(), a as int),
        cut_point(line.spec_bytes(), b as int),
    ensures
        r.spec_bytes() == line.spec_bytes().subrange(a as int, b as int),
{
    let ghost bytes = line.spec_bytes();
    proof {
        encode_utf8_valid_utf8(line@);
        lemma_cut_is_boundary(bytes, b as int);
    }
    let (head, _) = line.split_at(b);
    proof {
        valid_utf8_split(bytes, b as int);
        let h = bytes.subrange(0, b as int);
        assert(head.spec_bytes() == h);
        lemma_cut_is_boundary(h, a as int);
    }
    let (_, mid) = head.split_at(a);
    proof {
        assert(mid.spec_bytes() =~= bytes.subrange(a as int, b as int));
    }
    mid
}

/// The part of `line` between two cut points, as an owned string.
pub fn string_slice(line: &str, a: usize, b: usize) -> (r: String)
    requires
        a <= b,
        cut_point(line.spec_bytes(), a as int),
        cut_point(line.spec_bytes(), b as int),
    ensures
        encode_utf8(r@) == line.spec_bytes().subrange(a as int, b as int),
{
    let s = str_slice(line, a, b);
    s.to_owned()
}

/// The rest of `line` from the cut point `p`.
pub fn rest_of(line: &str, p: usize) -> (r: &str)
    requires
        cut_point(line.spec_bytes(), p as int),
    ensures
        r.spec_bytes() == line.spec_bytes().subrange(p as int, line.spec_bytes().len() as int),
{
    let n = line.as_bytes().len();
    str_slice(line, p, n)
}

} // verus!

//! Parameters of motion commands: a letter and a number, each letter at
//! most once per command.

use vstd::prelude::*;

use vstd::string::StringSliceAdditionalSpecFns;
use vstd::utf8::encode_utf8_valid_utf8;

use crate::number::parse_number;
use crate::number::spec_number;
use crate::number::Number;
use crate::number::NumberView;
use crate::text::lemma_cut_after_ascii;
use crate::text::rest_of;

verus! {

/// Letters of `G0`, `G1` and `G92` parameters: `A B C E F S U V W X Y Z`.
pub open spec fn head_letter(c: u8) -> bool {
    c == 65 || c == 66 || c == 67 || c == 69 || c == 70 || c == 83 || c == 85 || c == 86 || c == 87 || c == 88 || c == 89 || c == 90
}

/// Letters of arc parameters: those of linear moves and `I J P R`.
pub open spec fn arc_letter(c: u8) -> bool {
    c == 65 || c == 66 || c == 67 || c == 69 || c == 70 || c == 73 || c == 74 || c == 80 || c == 82 || c == 83 || c == 85 || c == 86 || c == 87 || c == 88 || c == 89 || c == 90
}

/// A parameter of `G0`, `G1` or `G92`.
#[derive(Clone, Debug, PartialEq, Eq)]
pub enum PosVal {
    /// Axis A
    A(Number),
    /// Axis B
    B(Number),
    /// Axis C
    C(Number),
    /// Extruder advance (negative: retract)
    E(Number),
    /// Feed rate
    F(Number),
    /// Spindle or laser power
    S(Number),
    /// Axis U
    U(Number),
    /// Axis V
    V(Number),
    /// Axis W
    W(Number),
    /// Axis X
    X(Number),
    /// Axis Y
    Y(Number),
    /// Axis Z
    Z(Number),
}

impl View for PosVal {
    type V = (u8, NumberView);

    open spec fn view(&self) -> (u8, NumberView) {
        match self {
            PosVal::A(n) => (65u8, n@),
            PosVal::B(n) => (66u8, n@),
            PosVal::C(n) => (67u8, n@),
            PosVal::E(n) => (69u8, n@),
            PosVal::F(n) => (70u8, n@),
            PosVal::S(n) => (83u8, n@),
            PosVal::U(n) => (85u8, n@),
            PosVal::V(n) => (86u8, n@),
            PosVal::W(n) => (87u8, n@),
            PosVal::X(n) => (88u8, n@),
            PosVal::Y(n) => (89u8, n@),
            PosVal::Z(n) => (90u8, n@),
        }
    }
}

impl PosVal {
    /// The parameter's letter.
    pub fn letter(&self) -> (r: u8)
        ensures
            r == self@.0,
    {
        match self {
            PosVal::A(_) => 65,
            PosVal::B(_) => 66,
            PosVal::C(_) => 67,
            PosVal::E(_) => 69,
            PosVal::F(_) => 70,
            PosVal::S(_) => 83,
            PosVal::U(_) => 85,
            PosVal::V(_) => 86,
            PosVal::W(_) => 87,
            PosVal::X(_) => 88,
            PosVal::Y(_) => 89,
            PosVal::Z(_) => 90,
        }
    }

    /// The parameter's value.
    pub fn value(&self) -> (r: &Number)
        ensures
            r@ == self@.1,
    {
        match self {
            PosVal::A(n) => n,
            PosVal::B(n) => n,
            PosVal::C(n) => n,
            PosVal::E(n) => n,
            PosVal::F(n) => n,
            PosVal::S(n) => n,
            PosVal::U(n) => n,
            PosVal::V(n) => n,
            PosVal::W(n) => n,
            PosVal::X(n) => n,
            PosVal::Y(n) => n,
            PosVal::Z(n) => n,
        }
    }

    /// The parameter with letter `c` and value `n`.
    pub fn from_letter(c: u8, n: Number) -> (r: Self)
        requires
            head_letter(c),
        ensures
            r@ == (c, n@),
    {
        if c == 65 {
            PosVal::A(n)
        } else if c == 66 {
            PosVal::B(n)
        } else if c == 67 {
            PosVal::C(n)
        } else if c == 69 {
            PosVal::E(n)
        } else if c == 70 {
            PosVal::F(n)
        } else if c == 83 {
            PosVal::S(n)
        } else if c == 85 {
            PosVal::U(n)
        } else if c == 86 {
            PosVal::V(n)
        } else if c == 87 {
            PosVal::W(n)
        } else if c == 88 {
            PosVal::X(n)
        } else if c == 89 {
            PosVal::Y(n)
        } else {
            PosVal::Z(n)
        }
    }
}

/// A parameter of `G2` or `G3`.
#[derive(Clone, Debug, PartialEq, Eq)]
pub enum ArcVal {
    /// Axis A
    A(Number),
    /// Axis B
    B(Number),
    /// Axis C
    C(Number),
    /// Extruder advance (negative: retract)
    E(Number),
    /// Feed rate
    F(Number),
    /// Centre offset along X
    I(Number),
    /// Centre offset along Y
    J(Number),
    /// Number of complete circles
    P(Number),
    /// Radius
    R(Number),
    /// Spindle or laser power
    S(Number),
    /// Axis U
    U(Number),
    /// Axis V
    V(Number),
    /// Axis W
    W(Number),
    /// Axis X
    X(Number),
    /// Axis Y
    Y(Number),
    /// Axis Z
    Z(Number),
}

impl View for ArcVal {
    type V = (u8, NumberView);

    open spec fn view(&self) -> (u8, NumberView) {
        match self {
            ArcVal::A(n) => (65u8, n@),
            ArcVal::B(n) => (66u8, n@),
            ArcVal::C(n) => (67u8, n@),
            ArcVal::E(n) => (69u8, n@),
            ArcVal::F(n) => (70u8, n@),
            ArcVal::I(n) => (73u8, n@),
            ArcVal::J(n) => (74u8, n@),
            ArcVal::P(n) => (80u8, n@),
            ArcVal::R(n) => (82u8, n@),
            ArcVal::S(n) => (83u8, n@),
            ArcVal::U(n) => (85u8, n@),
            ArcVal::V(n) => (86u8, n@),
            ArcVal::W(n) => (87u8, n@),
            ArcVal::X(n) => (88u8, n@),
            ArcVal::Y(n) => (89u8, n@),
            ArcVal::Z(n) => (90u8, n@),
        }
    }
}

impl ArcVal {
    /// The parameter's letter.
    pub fn letter(&self) -> (r: u8)
        ensures
            r == self@.0,
    {
        match self {
            ArcVal::A(_) => 65,
            ArcVal::B(_) => 66,
            ArcVal::C(_) => 67,
            ArcVal::E(_) => 69,
            ArcVal::F(_) => 70,
            ArcVal::I(_) => 73,
            ArcVal::J(_) => 74,
            ArcVal::P(_) => 80,
            ArcVal::R(_) => 82,
            ArcVal::S(_) => 83,
            ArcVal::U(_) => 85,
            ArcVal::V(_) => 86,
            ArcVal::W(_) => 87,
            ArcVal::X(_) => 88,
            ArcVal::Y(_) => 89,
            ArcVal::Z(_) => 90,
        }
    }

    /// The parameter's value.
    pub fn value(&self) -> (r: &Number)
        ensures
            r@ == self@.1,
    {
        match self {
            ArcVal::A(n) => n,
            ArcVal::B(n) => n,
            ArcVal::C(n) => n,
            ArcVal::E(n) => n,
            ArcVal::F(n) => n,
            ArcVal::I(n) => n,
            ArcVal::J(n) => n,
            ArcVal::P(n) => n,
            ArcVal::R(n) => n,
            ArcVal::S(n) => n,
            ArcVal::U(n) => n,
            ArcVal::V(n) => n,
            ArcVal::W(n) => n,
            ArcVal::X(n) => n,
            ArcVal::Y(n) => n,
            ArcVal::Z(n) => n,
        }
    }

    /// The parameter with letter `c` and value `n`.
    pub fn from_letter(c: u8, n: Number) -> (r: Self)
        requires
            arc_letter(c),
        ensures
            r@ == (c, n@),
    {
        if c == 65 {
            ArcVal::A(n)
        } else if c == 66 {
            ArcVal::B(n)
        } else if c == 67 {
            ArcVal::C(n)
        } else if c == 69 {
            ArcVal::E(n)
        } else if c == 70 {
            ArcVal::F(n)
        } else if c == 73 {
            ArcVal::I(n)
        } else if c == 74 {
            ArcVal::J(n)
        } else if c == 80 {
            ArcVal::P(n)
        } else if c == 82 {
            ArcVal::R(n)
        } else if c == 83 {
            ArcVal::S(n)
        } else if c == 85 {
            ArcVal::U(n)
        } else if c == 86 {
            ArcVal::V(n)
        } else if c == 87 {
            ArcVal::W(n)
        } else if c == 88 {
            ArcVal::X(n)
        } else if c == 89 {
            ArcVal::Y(n)
        } else {
            ArcVal::Z(n)
        }
    }
}

/// Space or tab.
pub open spec fn is_space(c: u8) -> bool {
    c == 0x20 || c == 0x09
}

/// The first index at or after `p` that does not hold a space or tab.
pub open spec fn skip_spaces(s: Seq<u8>, p: int) -> int
    decreases s.len() - p,
{
    if p < 0 || p >= s.len() || !is_space(s[p]) {
        p
    } else {
        skip_spaces(s, p + 1)
    }
}

/// The letters accepted in a parameter list of the given kind.
pub open spec fn param_letter(c: u8, arc: bool) -> bool {
    if arc {
        arc_letter(c)
    } else {
        head_letter(c)
    }
}

/// One parameter at `p`: optional spaces, a letter, a number.
pub open spec fn spec_param(s: Seq<u8>, p: int, arc: bool) -> Option<((u8, NumberView), int)> {
    let q = skip_spaces(s, p);
    if 0 <= q < s.len() && param_letter(s[q], arc) {
        match spec_number(s, q + 1) {
            Some((n, e)) => Some(((s[q], n), e)),
            None => None,
        }
    } else {
        None
    }
}

/// Up to `max` parameters read one after another from `p`, as written,
/// and where the last one ends.
pub open spec fn spec_params(s: Seq<u8>, p: int, arc: bool, max: nat) -> (Seq<(u8, NumberView)>, int)
    decreases max,
{
    if max == 0 {
        (seq![], p)
    } else {
        match spec_param(s, p, arc) {
            None => (seq![], p),
            Some((v, e)) => {
                let (rest, end) = spec_params(s, e, arc, (max - 1) as nat);
                (seq![v] + rest, end)
            },
        }
    }
}

/// Some entry of `vs` has letter `c`.
pub open spec fn has_letter(vs: Seq<(u8, NumberView)>, c: u8) -> bool {
    exists|i: int| 0 <= i < vs.len() && (#[trigger] vs[i]).0 == c
}

/// The entries of `vs` in order, each dropped when an earlier one has its letter.
pub open spec fn dedup_letters(vs: Seq<(u8, NumberView)>) -> Seq<(u8, NumberView)>
    decreases vs.len(),
{
    if vs.len() == 0 {
        vs
    } else {
        let d = dedup_letters(vs.drop_last());
        if has_letter(d, vs.last().0) {
            d
        } else {
            d.push(vs.last())
        }
    }
}

/// No two entries share a letter.
pub open spec fn letters_unique(vs: Seq<(u8, NumberView)>) -> bool {
    forall|i: int, j: int| 0 <= i < j < vs.len() ==> (#[trigger] vs[i]).0 != (#[trigger] vs[j]).0
}

/// After collapsing, a parameter set holds each letter at most once, and
/// exactly the letters that were written.
pub proof fn lemma_dedup_letters(vs: Seq<(u8, NumberView)>)
    ensures
        letters_unique(dedup_letters(vs)),
        forall|c: u8| has_letter(dedup_letters(vs), c) <==> has_letter(vs, c),
    decreases vs.len(),
{
    if vs.len() > 0 {
        let d = dedup_letters(vs.drop_last());
        lemma_dedup_letters(vs.drop_last());
        assert forall|c: u8| has_letter(vs, c) <==> (has_letter(vs.drop_last(), c) || vs.last().0 == c) by {
            if has_letter(vs, c) {
                let i = choose|i: int| 0 <= i < vs.len() && (#[trigger] vs[i]).0 == c;
                if i < vs.len() - 1 {
                    assert(vs.drop_last()[i] == vs[i]);
                }
            }
            if has_letter(vs.drop_last(), c) {
                let i = choose|i: int| 0 <= i < vs.drop_last().len() && (#[trigger] vs.drop_last()[i]).0 == c;
                assert(vs[i] == vs.drop_last()[i]);
            }
            if vs.last().0 == c {
                assert(vs[vs.len() - 1].0 == c);
            }
        }
        if !has_letter(d, vs.last().0) {
            let e = d.push(vs.last());
            assert forall|c: u8| has_letter(e, c) <==> (has_letter(d, c) || vs.last().0 == c) by {
                if has_letter(e, c) {
                    let i = choose|i: int| 0 <= i < e.len() && (#[trigger] e[i]).0 == c;
                    if i < d.len() {
                        assert(d[i] == e[i]);
                    }
                }
                if has_letter(d, c) {
                    let i = choose|i: int| 0 <= i < d.len() && (#[trigger] d[i]).0 == c;
                    assert(e[i] == d[i]);
                }
                if vs.last().0 == c {
                    assert(e[d.len() as int].0 == c);
                }
            }
            assert forall|i: int, j: int| 0 <= i < j < e.len() implies (#[trigger] e[i]).0 != (#[trigger] e[j]).0 by {
                if j == d.len() {
                    assert(e[i] == d[i]);
                    if e[i].0 == e[j].0 {
                        assert(has_letter(d, vs.last().0));
                    }
                } else {
                    assert(e[i] == d[i] && e[j] == d[j]);
                }
            }
        }
    }
}

/// The view of a list of letter-value pairs.
pub open spec fn pairs_view(v: Seq<(u8, Number)>) -> Seq<(u8, NumberView)> {
    v.map_values(|x: (u8, Number)| (x.0, x.1@))
}

/// Skips the spaces and tabs that start at `p`.
pub fn skip_spaces_at(s: &[u8], p: usize) -> (r: usize)
    requires
        p <= s@.len(),
    ensures
        r == skip_spaces(s@, p as int),
        p <= r <= s@.len(),
{
    let mut q = p;
    while q < s.len() && (s[q] == 0x20 || s[q] == 0x09)
        invariant
            p <= q <= s@.len(),
            skip_spaces(s@, p as int) == skip_spaces(s@, q as int),
        decreases s@.len() - q,
    {
        q = q + 1;
    }
    q
}

fn parse_param(s: &[u8], p: usize, arc: bool) -> (r: Option<(u8, Number, usize)>)
    requires
        p <= s@.len(),
    ensures
        match spec_param(s@, p as int, arc) {
            Some((v, e)) => r matches Some((c, n, e2)) && c == v.0 && n@ == v.1 && e2 == e,
            None => r is None,
        },
        r matches Some((_, _, e)) ==> p < e <= s@.len() && s@[e - 1] < 128,
{
    let q = skip_spaces_at(s, p);
    if q >= s.len() {
        return None;
    }
    let c = s[q];
    let ok = if arc {
        c == 65 || c == 66 || c == 67 || c == 69 || c == 70 || c == 73 || c == 74 || c == 80 || c == 82
            || c == 83 || c == 85 || c == 86 || c == 87 || c == 88 || c == 89 || c == 90
    } else {
        c == 65 || c == 66 || c == 67 || c == 69 || c == 70 || c == 83 || c == 85 || c == 86 || c == 87
            || c == 88 || c == 89 || c == 90
    };
    if !ok {
        return None;
    }
    match parse_number(s, q + 1) {
        Some((n, e)) => Some((c, n, e)),
        None => None,
    }
}

fn contains_letter(out: &Vec<(u8, Number)>, c: u8) -> (r: bool)
    ensures
        r == has_letter(pairs_view(out@), c),
{
    let mut i: usize = 0;
    while i < out.len()
        invariant
            0 <= i <= out@.len(),
            forall|j: int| 0 <= j < i ==> (#[trigger] out@[j]).0 != c,
        decreases out@.len() - i,
    {
        if out[i].0 == c {
            assert(pairs_view(out@)[i as int].0 == c);
            return true;
        }
        i = i + 1;
    }
    assert forall|j: int| 0 <= j < pairs_view(out@).len() implies (#[trigger] pairs_view(out@)[j]).0 != c by {
        assert(out@[j].0 != c);
    }
    false
}

/// Reads up to `max` parameters from `p`, keeping the first value of
/// each letter; returns them and where the last one read ends.
fn parse_param_list(s: &[u8], p: usize, arc: bool, max: usize) -> (r: (Vec<(u8, Number)>, usize))
    requires
        p <= s@.len(),
    ensures
        pairs_view(r.0@) == dedup_letters(spec_params(s@, p as int, arc, max as nat).0),
        r.1 == spec_params(s@, p as int, arc, max as nat).1,
        p <= r.1 <= s@.len(),
        (spec_params(s@, p as int, arc, max as nat).0.len() == 0) == (r.1 == p),
        r.1 > p ==> s@[r.1 - 1] < 128,
        forall|i: int| 0 <= i < r.0@.len() ==> param_letter((#[trigger] r.0@[i]).0, arc),
{
    let mut out: Vec<(u8, Number)> = Vec::new();
    let ghost mut raw: Seq<(u8, NumberView)> = seq![];
    let mut cur = p;
    let mut k: usize = 0;
    while k < max
        invariant
            p <= cur <= s@.len(),
            k <= max,
            pairs_view(out@) == dedup_letters(raw),
            (raw.len() == 0) == (cur == p),
            cur > p ==> s@[cur - 1] < 128,
            forall|i: int| 0 <= i < out@.len() ==> param_letter((#[trigger] out@[i]).0, arc),
            spec_params(s@, p as int, arc, max as nat) == ({
                let (rest, end) = spec_params(s@, cur as int, arc, (max - k) as nat);
                (raw + rest, end)
            }),
        decreases max - k,
    {
        match parse_param(s, cur, arc) {
            None => {
                assert(raw + seq![] =~= raw);
                return (out, cur);
            },
            Some((c, n, e)) => {
                let ghost v = (c, n@);
                let ghost old_out = out@;
                if !contains_letter(&out, c) {
                    out.push((c, n));
                    assert(pairs_view(out@) =~= pairs_view(old_out).push(v));
                }
                proof {
                    let (rest, end) = spec_params(s@, e as int, arc, (max - k - 1) as nat);
                    assert(raw + (seq![v] + rest) =~= raw.push(v) + rest);
                    assert(raw.push(v).drop_last() =~= raw);
                    raw = raw.push(v);
                }
                cur = e;
                k = k + 1;
            },
        }
    }
    assert(raw + seq![] =~= raw);
    (out, cur)
}

/// Reads the parameters of a linear move or `G92` (up to 11) from `p`, keeping the first
/// value of each letter; returns them and where the last one read ends.
pub fn parse_head_params(s: &[u8], p: usize) -> (r: (Vec<PosVal>, usize))
    requires
        p <= s@.len(),
    ensures
        r.0@.map_values(|v: PosVal| v@) == dedup_letters(spec_params(s@, p as int, false, 11).0),
        r.1 == spec_params(s@, p as int, false, 11).1,
        p <= r.1 <= s@.len(),
        (spec_params(s@, p as int, false, 11).0.len() == 0) == (r.1 == p),
        r.1 > p ==> s@[r.1 - 1] < 128,
{
    let (pairs, end) = parse_param_list(s, p, false, 11);
    let ghost all = pairs_view(pairs@);
    let mut pairs = pairs;
    let mut out: Vec<PosVal> = Vec::new();
    while pairs.len() > 0
        invariant
            forall|j: int| 0 <= j < pairs@.len() ==> head_letter((#[trigger] pairs@[j]).0),
            out@.map_values(|v: PosVal| v@) + pairs_view(pairs@) == all,
        decreases pairs@.len(),
    {
        let ghost before = pairs@;
        let (c, n) = pairs.remove(0);
        assert(before[0] == (c, n));
        assert(pairs@ =~= before.subrange(1, before.len() as int));
        let ghost old_out = out@;
        out.push(PosVal::from_letter(c, n));
        assert(out@.map_values(|v: PosVal| v@) =~= old_out.map_values(|v: PosVal| v@).push((c, n@)));
        assert(pairs_view(before) =~= seq![(c, n@)] + pairs_view(pairs@));
        assert(out@.map_values(|v: PosVal| v@) + pairs_view(pairs@) =~= old_out.map_values(|v: PosVal| v@) + pairs_view(before));
    }
    assert(pairs_view(pairs@) =~= Seq::<(u8, NumberView)>::empty());
    assert(out@.map_values(|v: PosVal| v@) + pairs_view(pairs@) =~= out@.map_values(|v: PosVal| v@));
    (out, end)
}

/// Reads the parameters of an arc (up to 15) from `p`, keeping the first
/// value of each letter; returns them and where the last one read ends.
pub fn parse_arc_params(s: &[u8], p: usize) -> (r: (Vec<ArcVal>, usize))
    requires
        p <= s@.len(),
    ensures
        r.0@.map_values(|v: ArcVal| v@) == dedup_letters(spec_params(s@, p as int, true, 15).0),
        r.1 == spec_params(s@, p as int, true, 15).1,
        p <= r.1 <= s@.len(),
        (spec_params(s@, p as int, true, 15).0.len() == 0) == (r.1 == p),
        r.1 > p ==> s@[r.1 - 1] < 128,
{
    let (pairs, end) = parse_param_list(s, p, true, 15);
    let ghost all = pairs_view(pairs@);
    let mut pairs = pairs;
    let mut out: Vec<ArcVal> = Vec::new();
    while pairs.len() > 0
        invariant
            forall|j: int| 0 <= j < pairs@.len() ==> arc_letter((#[trigger] pairs@[j]).0),
            out@.map_values(|v: ArcVal| v@) + pairs_view(pairs@) == all,
        decreases pairs@.len(),
    {
        let ghost before = pairs@;
        let (c, n) = pairs.remove(0);
        assert(before[0] == (c, n));
        assert(pairs@ =~= before.subrange(1, before.len() as int));
        let ghost old_out = out@;
        out.push(ArcVal::from_letter(c, n));
        assert(out@.map_values(|v: ArcVal| v@) =~= old_out.map_values(|v: ArcVal| v@).push((c, n@)));
        assert(pairs_view(before) =~= seq![(c, n@)] + pairs_view(pairs@));
        assert(out@.map_values(|v: ArcVal| v@) + pairs_view(pairs@) =~= old_out.map_values(|v: ArcVal| v@) + pairs_view(before));
    }
    assert(pairs_view(pairs@) =~= Seq::<(u8, NumberView)>::empty());
    assert(out@.map_values(|v: ArcVal| v@) + pairs_view(pairs@) =~= out@.map_values(|v: ArcVal| v@));
    (out, end)
}

fn parse_head_letter(line: &str, letter: u8) -> (r: Option<(&str, PosVal)>)
    ensures
        match spec_param(line.spec_bytes(), 0, false) {
            Some((v, e)) => if v.0 == letter {
                r matches Some((rest, p)) && p@ == v
                    && rest.spec_bytes() == line.spec_bytes().subrange(e, line.spec_bytes().len() as int)
            } else {
                r is None
            },
            None => r is None,
        },
{
    let s = line.as_bytes();
    match parse_param(s, 0, false) {
        Some((c, n, e)) => {
            if c != letter {
                return None;
            }
            proof {
                encode_utf8_valid_utf8(line@);
                lemma_cut_after_ascii(s@, e as int);
            }
            Some((rest_of(line, e), PosVal::from_letter(c, n)))
        },
        None => None,
    }
}

/// Reads a `A` parameter (after optional spaces) at the start of `line`.
pub fn parse_a(line: &str) -> (r: Option<(&str, PosVal)>)
    ensures
        match spec_param(line.spec_bytes(), 0, false) {
            Some((v, e)) => if v.0 == 65u8 {
                r matches Some((rest, p)) && p@ == v
                    && rest.spec_bytes() == line.spec_bytes().subrange(e, line.spec_bytes().len() as int)
            } else {
                r is None
            },
            None => r is None,
        },
{
    parse_head_letter(line, 65)
}

/// Reads a `B` parameter (after optional spaces) at the start of `line`.
pub fn parse_b(line: &str) -> (r: Option<(&str, PosVal)>)
    ensures
        match spec_param(line.spec_bytes(), 0, false) {
            Some((v, e)) => if v.0 == 66u8 {
                r matches Some((rest, p)) && p@ == v
                    && rest.spec_bytes() == line.spec_bytes().subrange(e, line.spec_bytes().len() as int)
            } else {
                r is None
            },
            None => r is None,
        },
{
    parse_head_letter(line, 66)
}

/// Reads a `C` parameter (after optional spaces) at the start of `line`.
pub fn parse_c(line: &str) -> (r: Option<(&str, PosVal)>)
    ensures
        match spec_param(line.spec_bytes(), 0, false) {
            Some((v, e)) => if v.0 == 67u8 {
                r matches Some((rest, p)) && p@ == v
                    && rest.spec_bytes() == line.spec_bytes().subrange(e, line.spec_bytes().len() as int)
            } else {
                r is None
            },
            None => r is None,
        },
{
    parse_head_letter(line, 67)
}

/// Reads a `E` parameter (after optional spaces) at the start of `line`.
pub fn parse_e(line: &str) -> (r: Option<(&str, PosVal)>)
    ensures
        match spec_param(line.spec_bytes(), 0, false) {
            Some((v, e)) => if v.0 == 69u8 {
                r matches Some((rest, p)) && p@ == v
                    && rest.spec_bytes() == line.spec_bytes().subrange(e, line.spec_bytes().len() as int)
            } else {
                r is None
            },
            None => r is None,
        },
{
    parse_head_letter(line, 69)
}

/// Reads a `F` parameter (after optional spaces) at the start of `line`.
pub fn parse_f(line: &str) -> (r: Option<(&str, PosVal)>)
    ensures
        match spec_param(line.spec_bytes(), 0, false) {
            Some((v, e)) => if v.0 == 70u8 {
                r matches Some((rest, p)) && p@ == v
                    && rest.spec_bytes() == line.spec_bytes().subrange(e, line.spec_bytes().len() as int)
            } else {
                r is None
            },
            None => r is None,
        },
{
    parse_head_letter(line, 70)
}

/// Reads a `S` parameter (after optional spaces) at the start of `line`.
pub fn parse_s(line: &str) -> (r: Option<(&str, PosVal)>)
    ensures
        match spec_param(line.spec_bytes(), 0, false) {
            Some((v, e)) => if v.0 == 83u8 {
                r matches Some((rest, p)) && p@ == v
                    && rest.spec_bytes() == line.spec_bytes().subrange(e, line.spec_bytes().len() as int)
            } else {
                r is None
            },
            None => r is None,
        },
{
    parse_head_letter(line, 83)
}

/// Reads a `U` parameter (after optional spaces) at the start of `line`.
pub fn parse_u(line: &str) -> (r: Option<(&str, PosVal)>)
    ensures
        match spec_param(line.spec_bytes(), 0, false) {
            Some((v, e)) => if v.0 == 85u8 {
                r matches Some((rest, p)) && p@ == v
                    && rest.spec_bytes() == line.spec_bytes().subrange(e, line.spec_bytes().len() as int)
            } else {
                r is None
            },
            None => r is None,
        },
{
    parse_head_letter(line, 85)
}

/// Reads a `V` parameter (after optional spaces) at the start of `line`.
pub fn parse_v(line: &str) -> (r: Option<(&str, PosVal)>)
    ensures
        match spec_param(line.spec_bytes(), 0, false) {
            Some((v, e)) => if v.0 == 86u8 {
                r matches Some((rest, p)) && p@ == v
                    && rest.spec_bytes() == line.spec_bytes().subrange(e, line.spec_bytes().len() as int)
            } else {
                r is None
            },
            None => r is None,
        },
{
    parse_head_letter(line, 86)
}

/// Reads a `W` parameter (after optional spaces) at the start of `line`.
pub fn parse_w(line: &str) -> (r: Option<(&str, PosVal)>)
    ensures
        match spec_param(line.spec_bytes(), 0, false) {
            Some((v, e)) => if v.0 == 87u8 {
                r matches Some((rest, p)) && p@ == v
                    && rest.spec_bytes() == line.spec_bytes().subrange(e, line.spec_bytes().len() as int)
            } else {
                r is None
            },
            None => r is None,
        },
{
    parse_head_letter(line, 87)
}

/// Reads a `X` parameter (after optional spaces) at the start of `line`.
pub fn parse_x(line: &str) -> (r: Option<(&str, PosVal)>)
    ensures
        match spec_param(line.spec_bytes(), 0, false) {
            Some((v, e)) => if v.0 == 88u8 {
                r matches Some((rest, p)) && p@ == v
                    && rest.spec_bytes() == line.spec_bytes().subrange(e, line.spec_bytes().len() as int)
            } else {
                r is None
            },
            None => r is None,
        },
{
    parse_head_letter(line, 88)
}

/// Reads a `Y` parameter (after optional spaces) at the start of `line`.
pub fn parse_y(line: &str) -> (r: Option<(&str, PosVal)>)
    ensures
        match spec_param(line.spec_bytes(), 0, false) {
            Some((v, e)) => if v.0 == 89u8 {
                r matches Some((rest, p)) && p@ == v
                    && rest.spec_bytes() == line.spec_bytes().subrange(e, line.spec_bytes().len() as int)
            } else {
                r is None
            },
            None => r is None,
        },
{
    parse_head_letter(line, 89)
}

/// Reads a `Z` parameter (after optional spaces) at the start of `line`.
pub fn parse_z(line: &str) -> (r: Option<(&str, PosVal)>)
    ensures
        match spec_param(line.spec_bytes(), 0, false) {
            Some((v, e)) => if v.0 == 90u8 {
                r matches Some((rest, p)) && p@ == v
                    && rest.spec_bytes() == line.spec_bytes().subrange(e, line.spec_bytes().len() as int)
            } else {
                r is None
            },
            None => r is None,
        },
{
    parse_head_letter(line, 90)
}

} // verus!

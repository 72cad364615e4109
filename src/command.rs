//! One line of G-code text to one command.
//!
//! Alternatives are tried in a fixed order: `G1`/`G01`, `G0`/`G00`,
//! `G2`/`G02`, `G3`/`G03`, `G20`, `G21`, `G90`, `G91`, `G92`, a comment,
//! `M486`, any other `G<n>` or `M<n>`, and last the empty command, which
//! always matches. What the chosen alternative does not read is handed back.

use vstd::prelude::*;
use vstd::string::StringSliceAdditionalSpecFns;
use vstd::utf8::encode_utf8;
use vstd::utf8::encode_utf8_valid_utf8;

use crate::block::BlockError;
use crate::multipart::parse_multipart;
use crate::multipart::spec_multipart;
use crate::multipart::MultiPartVal;
use crate::multipart::MultiPartView;
use crate::number::digits_end;
use crate::number::digits_value;
use crate::number::parse_u16_digits;
use crate::number::scan_digits;
use crate::number::NumberView;
use crate::params::dedup_letters;
use crate::params::has_letter;
use crate::params::lemma_dedup_letters;
use crate::params::letters_unique;
use crate::params::parse_arc_params;
use crate::params::parse_head_params;
use crate::params::skip_spaces;
use crate::params::skip_spaces_at;
use crate::params::spec_params;
use crate::params::ArcVal;
use crate::params::PosVal;
use crate::text::cut_point;
use crate::text::lemma_cut_after_ascii;
use crate::text::lemma_cut_at_start;
use crate::text::rest_of;
use crate::text::string_slice;

verus! {

/// The two forms of an arc: centre offsets `I`/`J`, or radius `R`.
#[derive(Clone, Debug, PartialEq, Eq)]
pub enum Form {
    /// Centre given by offsets `I` and `J`.
    IJ(Vec<ArcVal>),
    /// Radius given by `R`.
    R(Vec<ArcVal>),
}

pub enum FormView {
    IJ(Seq<(u8, NumberView)>),
    R(Seq<(u8, NumberView)>),
}

impl View for Form {
    type V = FormView;

    open spec fn view(&self) -> FormView {
        match self {
            Form::IJ(v) => FormView::IJ(v@.map_values(|a: ArcVal| a@)),
            Form::R(v) => FormView::R(v@.map_values(|a: ArcVal| a@)),
        }
    }
}

/// A command of the G-code dialect.
#[derive(Clone, Debug, PartialEq, Eq)]
pub enum Command {
    /// `G0`: linear move, not printing.
    G0(Vec<PosVal>),
    /// `G1`: linear move, printing.
    G1(Vec<PosVal>),
    /// `G2`: clockwise arc.
    G2(Form),
    /// `G3`: counter-clockwise arc.
    G3(Form),
    /// `G20`: units are inches.
    G20,
    /// `G21`: units are millimetres.
    G21,
    /// `G90`: absolute positioning.
    G90,
    /// `G91`: relative positioning.
    G91,
    /// `G92`: set the current position.
    G92(Vec<PosVal>),
    /// `M486`: multi-object directive.
    M486(MultiPartVal),
    /// Any other `G` code: no further action.
    GDrop(u16),
    /// Any other `M` code: no further action.
    MDrop(u16),
    /// `;` and the text after it, up to the line ending.
    Comment(String),
    /// Nothing recognised: an empty command.
    Nop,
}

pub enum CommandView {
    G0(Seq<(u8, NumberView)>),
    G1(Seq<(u8, NumberView)>),
    G2(FormView),
    G3(FormView),
    G20,
    G21,
    G90,
    G91,
    G92(Seq<(u8, NumberView)>),
    M486(MultiPartView),
    GDrop(u16),
    MDrop(u16),
    Comment(Seq<u8>),
    Nop,
}

impl View for Command {
    type V = CommandView;

    open spec fn view(&self) -> CommandView {
        match self {
            Command::G0(v) => CommandView::G0(v@.map_values(|p: PosVal| p@)),
            Command::G1(v) => CommandView::G1(v@.map_values(|p: PosVal| p@)),
            Command::G2(f) => CommandView::G2(f@),
            Command::G3(f) => CommandView::G3(f@),
            Command::G20 => CommandView::G20,
            Command::G21 => CommandView::G21,
            Command::G90 => CommandView::G90,
            Command::G91 => CommandView::G91,
            Command::G92(v) => CommandView::G92(v@.map_values(|p: PosVal| p@)),
            Command::M486(m) => CommandView::M486(m@),
            Command::GDrop(n) => CommandView::GDrop(*n),
            Command::MDrop(n) => CommandView::MDrop(*n),
            Command::Comment(t) => CommandView::Comment(encode_utf8(t@)),
            Command::Nop => CommandView::Nop,
        }
    }
}

/// `w` stands at `p`.
pub open spec fn tag_at(s: Seq<u8>, p: int, w: Seq<u8>) -> bool {
    &&& 0 <= p
    &&& p + w.len() <= s.len()
    &&& forall|i: int| 0 <= i < w.len() ==> #[trigger] s[p + i] == w[i]
}

/// Where the opcode ends when the line starts with `long` or else `short`
/// (`-1` when it starts with neither).
pub open spec fn opcode_end(s: Seq<u8>, long: Seq<u8>, short: Seq<u8>) -> int {
    if tag_at(s, 0, long) {
        long.len() as int
    } else if tag_at(s, 0, short) {
        short.len() as int
    } else {
        -1
    }
}

/// One or more parameters after the opcode that ends at `t` (then optional
/// spaces), collapsed to one per letter, and where they end.
pub open spec fn spec_param_set(s: Seq<u8>, t: int, arc: bool) -> Option<(Seq<(u8, NumberView)>, int)> {
    let max: nat = if arc { 15 } else { 11 };
    if t < 0 {
        None
    } else {
        let (vals, e) = spec_params(s, skip_spaces(s, t), arc, max);
        if vals.len() == 0 {
            None
        } else {
            Some((dedup_letters(vals), e))
        }
    }
}

pub open spec fn has_ij(vals: Seq<(u8, NumberView)>) -> bool {
    has_letter(vals, 0x49) || has_letter(vals, 0x4a)
}

pub open spec fn has_r(vals: Seq<(u8, NumberView)>) -> bool {
    has_letter(vals, 0x52)
}

/// The arc form that a parameter set gives: `I`/`J` or `R`, not both,
/// not neither.
pub open spec fn spec_arc_form(vals: Seq<(u8, NumberView)>) -> Result<FormView, BlockError> {
    if has_ij(vals) && !has_r(vals) {
        Ok(FormView::IJ(vals))
    } else if !has_ij(vals) && has_r(vals) {
        Ok(FormView::R(vals))
    } else {
        Err(BlockError::InvalidArc)
    }
}

pub open spec fn g00() -> Seq<u8> { seq![0x47u8, 0x30u8, 0x30u8] }
pub open spec fn g0() -> Seq<u8> { seq![0x47u8, 0x30u8] }
pub open spec fn g01() -> Seq<u8> { seq![0x47u8, 0x30u8, 0x31u8] }
pub open spec fn g1() -> Seq<u8> { seq![0x47u8, 0x31u8] }
pub open spec fn g02() -> Seq<u8> { seq![0x47u8, 0x30u8, 0x32u8] }
pub open spec fn g2() -> Seq<u8> { seq![0x47u8, 0x32u8] }
pub open spec fn g03() -> Seq<u8> { seq![0x47u8, 0x30u8, 0x33u8] }
pub open spec fn g3() -> Seq<u8> { seq![0x47u8, 0x33u8] }
pub open spec fn g20() -> Seq<u8> { seq![0x47u8, 0x32u8, 0x30u8] }
pub open spec fn g21() -> Seq<u8> { seq![0x47u8, 0x32u8, 0x31u8] }
pub open spec fn g90() -> Seq<u8> { seq![0x47u8, 0x39u8, 0x30u8] }
pub open spec fn g91() -> Seq<u8> { seq![0x47u8, 0x39u8, 0x31u8] }
pub open spec fn g92() -> Seq<u8> { seq![0x47u8, 0x39u8, 0x32u8] }
pub open spec fn m486() -> Seq<u8> { seq![0x4du8, 0x34u8, 0x38u8, 0x36u8] }

/// `;` after optional spaces, the text up to the line ending, and a line
/// ending (`\n` or `\r\n`); the text holds neither `\r` nor `\n`.
pub open spec fn spec_comment(s: Seq<u8>) -> Option<(Seq<u8>, int)> {
    let q = skip_spaces(s, 0);
    if q < s.len() && s[q] == 0x3b {
        let c = line_end(s, q + 1);
        if c < s.len() && s[c] == 0x0a {
            Some((s.subrange(q + 1, c), c + 1))
        } else if c + 1 < s.len() && s[c] == 0x0d && s[c + 1] == 0x0a {
            Some((s.subrange(q + 1, c), c + 2))
        } else {
            None
        }
    } else {
        None
    }
}

/// The first index at or after `p` that holds `\r` or `\n`, or the length.
pub open spec fn line_end(s: Seq<u8>, p: int) -> int
    decreases s.len() - p,
{
    if p < 0 || p >= s.len() || s[p] == 0x0d || s[p] == 0x0a {
        p
    } else {
        line_end(s, p + 1)
    }
}

/// `G` and digits whose value fits in a `u16`.
pub open spec fn spec_g_drop(s: Seq<u8>) -> Option<(u16, int)> {
    let e = digits_end(s, 1);
    if s.len() >= 1 && s[0] == 0x47 && e > 1 && digits_value(s.subrange(1, e)) <= 0xffff {
        Some((digits_value(s.subrange(1, e)) as u16, e))
    } else {
        None
    }
}

/// `M`, optional spaces and digits whose value fits in a `u16`.
pub open spec fn spec_m_drop(s: Seq<u8>) -> Option<(u16, int)> {
    let q = skip_spaces(s, 1);
    let e = digits_end(s, q);
    if s.len() >= 1 && s[0] == 0x4d && e > q && digits_value(s.subrange(q, e)) <= 0xffff {
        Some((digits_value(s.subrange(q, e)) as u16, e))
    } else {
        None
    }
}

/// The linear moves and `G92`, the unit and positioning tags.
pub open spec fn spec_simple(s: Seq<u8>) -> Option<(CommandView, int)> {
    if spec_param_set(s, opcode_end(s, g01(), g1()), false) is Some {
        let (v, e) = spec_param_set(s, opcode_end(s, g01(), g1()), false)->Some_0;
        Some((CommandView::G1(v), e))
    } else if spec_param_set(s, opcode_end(s, g00(), g0()), false) is Some {
        let (v, e) = spec_param_set(s, opcode_end(s, g00(), g0()), false)->Some_0;
        Some((CommandView::G0(v), e))
    } else {
        None
    }
}

/// The arc alternative for an opcode that ends at `t`: `None` when no
/// parameter follows it, else the arc or `InvalidArc`.
pub open spec fn spec_arc(s: Seq<u8>, t: int, clockwise: bool) -> Option<Result<(CommandView, int), BlockError>> {
    match spec_param_set(s, t, true) {
        None => None,
        Some((v, e)) => Some(match spec_arc_form(v) {
            Ok(f) => Ok((if clockwise { CommandView::G2(f) } else { CommandView::G3(f) }, e)),
            Err(err) => Err(err),
        }),
    }
}

/// The alternatives after the arcs, in order; the empty command last.
pub open spec fn spec_rest_alternatives(s: Seq<u8>) -> (CommandView, int) {
    if tag_at(s, 0, g20()) {
        (CommandView::G20, 3)
    } else if tag_at(s, 0, g21()) {
        (CommandView::G21, 3)
    } else if tag_at(s, 0, g90()) {
        (CommandView::G90, 3)
    } else if tag_at(s, 0, g91()) {
        (CommandView::G91, 3)
    } else if tag_at(s, 0, g92()) && spec_param_set(s, 3, false) is Some {
        let (v, e) = spec_param_set(s, 3, false)->Some_0;
        (CommandView::G92(v), e)
    } else if spec_comment(s) is Some {
        let (t, e) = spec_comment(s)->Some_0;
        (CommandView::Comment(t), e)
    } else if tag_at(s, 0, m486()) && spec_multipart(s, 4) is Some {
        let (m, e) = spec_multipart(s, 4)->Some_0;
        (CommandView::M486(m), e)
    } else if spec_g_drop(s) is Some {
        let (n, e) = spec_g_drop(s)->Some_0;
        (CommandView::GDrop(n), e)
    } else if spec_m_drop(s) is Some {
        let (n, e) = spec_m_drop(s)->Some_0;
        (CommandView::MDrop(n), e)
    } else {
        (CommandView::Nop, 0)
    }
}

/// The command that a line starts with and where it ends, or `InvalidArc`
/// for an arc whose parameters give neither or both forms.
pub open spec fn spec_parse_line(s: Seq<u8>) -> Result<(CommandView, int), BlockError> {
    if spec_simple(s) is Some {
        Ok(spec_simple(s)->Some_0)
    } else if spec_arc(s, opcode_end(s, g02(), g2()), true) is Some {
        spec_arc(s, opcode_end(s, g02(), g2()), true)->Some_0
    } else if spec_arc(s, opcode_end(s, g3(), g03()), false) is Some {
        spec_arc(s, opcode_end(s, g3(), g03()), false)->Some_0
    } else {
        Ok(spec_rest_alternatives(s))
    }
}

fn has_tag(s: &[u8], p: usize, w: &[u8]) -> (r: bool)
    requires
        p <= s@.len(),
    ensures
        r == tag_at(s@, p as int, w@),
{
    if s.len() - p < w.len() {
        return false;
    }
    let mut i: usize = 0;
    while i < w.len()
        invariant
            p <= s@.len() <= usize::MAX,
            p + w@.len() <= s@.len(),
            0 <= i <= w@.len(),
            forall|j: int| 0 <= j < i ==> #[trigger] s@[p + j] == w@[j],
        decreases w@.len() - i,
    {
        if s[p + i] != w[i] {
            return false;
        }
        i = i + 1;
    }
    true
}

fn opcode_len(s: &[u8], long: &[u8], short: &[u8]) -> (r: Option<usize>)
    requires
        long@.len() > 0,
        short@.len() > 0,
        long@.last() < 128,
        short@.last() < 128,
    ensures
        match r {
            Some(t) => t as int == opcode_end(s@, long@, short@) && 0 < t <= s@.len() && s@[t - 1] < 128
                && (s@[t - 1] == long@.last() || s@[t - 1] == short@.last()),
            None => opcode_end(s@, long@, short@) == -1,
        },
{
    if has_tag(s, 0, long) {
        assert(s@[0 + (long@.len() - 1)] == long@[long@.len() - 1]);
        Some(long.len())
    } else if has_tag(s, 0, short) {
        assert(s@[0 + (short@.len() - 1)] == short@[short@.len() - 1]);
        Some(short.len())
    } else {
        None
    }
}

fn head_param_set(s: &[u8], t: usize) -> (r: Option<(Vec<PosVal>, usize)>)
    requires
        t <= s@.len(),
    ensures
        match spec_param_set(s@, t as int, false) {
            Some((v, e)) => r matches Some((pv, e2)) && pv@.map_values(|p: PosVal| p@) == v && e2 == e,
            None => r is None,
        },
        r matches Some((_, e)) ==> t < e <= s@.len() && s@[e - 1] < 128,
{
    let q = skip_spaces_at(s, t);
    let (v, e) = parse_head_params(s, q);
    if e == q {
        None
    } else {
        Some((v, e))
    }
}

fn arc_param_set(s: &[u8], t: usize) -> (r: Option<(Vec<ArcVal>, usize)>)
    requires
        t <= s@.len(),
    ensures
        match spec_param_set(s@, t as int, true) {
            Some((v, e)) => r matches Some((av, e2)) && av@.map_values(|a: ArcVal| a@) == v && e2 == e,
            None => r is None,
        },
        r matches Some((_, e)) ==> t < e <= s@.len() && s@[e - 1] < 128,
{
    let q = skip_spaces_at(s, t);
    let (v, e) = parse_arc_params(s, q);
    if e == q {
        None
    } else {
        Some((v, e))
    }
}

fn arc_has_letter(v: &Vec<ArcVal>, c: u8) -> (r: bool)
    ensures
        r == has_letter(v@.map_values(|a: ArcVal| a@), c),
{
    let ghost vs = v@.map_values(|a: ArcVal| a@);
    let mut i: usize = 0;
    while i < v.len()
        invariant
            0 <= i <= v@.len(),
            vs == v@.map_values(|a: ArcVal| a@),
            forall|j: int| 0 <= j < i ==> (#[trigger] vs[j]).0 != c,
        decreases v@.len() - i,
    {
        if v[i].letter() == c {
            assert(vs[i as int].0 == c);
            return true;
        }
        i = i + 1;
    }
    false
}

fn arc_form(v: Vec<ArcVal>) -> (r: Result<Form, BlockError>)
    ensures
        match spec_arc_form(v@.map_values(|a: ArcVal| a@)) {
            Ok(f) => r matches Ok(form) && form@ == f,
            Err(e) => r matches Err(e2) && e2 == e,
        },
{
    let ij = arc_has_letter(&v, 0x49) || arc_has_letter(&v, 0x4a);
    let r = arc_has_letter(&v, 0x52);
    if ij && !r {
        Ok(Form::IJ(v))
    } else if !ij && r {
        Ok(Form::R(v))
    } else {
        Err(BlockError::InvalidArc)
    }
}

fn parse_arc(s: &[u8], long: &[u8], short: &[u8], clockwise: bool) -> (r: Option<Result<(Command, usize), BlockError>>)
    requires
        long@.len() > 0,
        short@.len() > 0,
        long@.last() < 128,
        short@.last() < 128,
    ensures
        match spec_arc(s@, opcode_end(s@, long@, short@), clockwise) {
            Some(Ok((c, e))) => r matches Some(Ok((cmd, e2))) && cmd@ == c && e2 == e,
            Some(Err(err)) => r matches Some(Err(e2)) && e2 == err,
            None => r is None,
        },
        r matches Some(Ok((_, e))) ==> 0 < e <= s@.len() && s@[e - 1] < 128,
{
    let t = match opcode_len(s, long, short) {
        Some(t) => t,
        None => return None,
    };
    match arc_param_set(s, t) {
        None => None,
        Some((v, e)) => match arc_form(v) {
            Ok(f) => Some(Ok((if clockwise { Command::G2(f) } else { Command::G3(f) }, e))),
            Err(err) => Some(Err(err)),
        },
    }
}

fn scan_line_end(s: &[u8], p: usize) -> (r: usize)
    requires
        p <= s@.len(),
    ensures
        r == line_end(s@, p as int),
        p <= r <= s@.len(),
{
    let mut i = p;
    while i < s.len() && s[i] != 0x0d && s[i] != 0x0a
        invariant
            p <= i <= s@.len(),
            line_end(s@, p as int) == line_end(s@, i as int),
        decreases s@.len() - i,
    {
        i = i + 1;
    }
    i
}

fn parse_comment(line: &str, s: &[u8]) -> (r: Option<(Command, usize)>)
    requires
        s@ == line.spec_bytes(),
    ensures
        match spec_comment(s@) {
            Some((t, e)) => r matches Some((cmd, e2)) && cmd@ == CommandView::Comment(t) && e2 == e,
            None => r is None,
        },
        r matches Some((_, e)) ==> 0 < e <= s@.len() && s@[e - 1] < 128,
{
    let q = skip_spaces_at(s, 0);
    if !(q < s.len() && s[q] == 0x3b) {
        return None;
    }
    let c = scan_line_end(s, q + 1);
    let e = if c < s.len() && s[c] == 0x0a {
        c + 1
    } else if c < s.len() - 1 && s[c] == 0x0d && s[c + 1] == 0x0a {
        c + 2
    } else {
        return None;
    };
    proof {
        encode_utf8_valid_utf8(line@);
        lemma_cut_after_ascii(s@, q + 1);
        lemma_cut_after_ascii(s@, c + 1);
        if c + 1 < s@.len() {
            assert(cut_point(s@, c as int)) by {
                assert(s@[c as int] < 128);
            }
        }
    }
    let text = string_slice(line, q + 1, c);
    Some((Command::Comment(text), e))
}

fn parse_g_drop(s: &[u8]) -> (r: Option<(u16, usize)>)
    ensures
        match spec_g_drop(s@) {
            Some((n, e)) => r matches Some((n2, e2)) && n2 == n && e2 == e,
            None => r is None,
        },
        r matches Some((_, e)) ==> 0 < e <= s@.len() && s@[e - 1] < 128,
{
    if s.len() == 0 || s[0] != 0x47 {
        return None;
    }
    let e = scan_digits(s, 1);
    if e == 1 {
        return None;
    }
    match parse_u16_digits(s, 1, e) {
        Some(n) => Some((n, e)),
        None => None,
    }
}

fn parse_m_drop(s: &[u8]) -> (r: Option<(u16, usize)>)
    ensures
        match spec_m_drop(s@) {
            Some((n, e)) => r matches Some((n2, e2)) && n2 == n && e2 == e,
            None => r is None,
        },
        r matches Some((_, e)) ==> 0 < e <= s@.len() && s@[e - 1] < 128,
{
    if s.len() == 0 || s[0] != 0x4d {
        return None;
    }
    let q = skip_spaces_at(s, 1);
    let e = scan_digits(s, q);
    if e == q {
        return None;
    }
    match parse_u16_digits(s, q, e) {
        Some(n) => Some((n, e)),
        None => None,
    }
}

fn parse_rest_alternatives(line: &str, s: &[u8]) -> (r: (Command, usize))
    requires
        s@ == line.spec_bytes(),
    ensures
        r.0@ == spec_rest_alternatives(s@).0,
        r.1 == spec_rest_alternatives(s@).1,
        r.1 == 0 || (r.1 <= s@.len() && s@[r.1 - 1] < 128),
{
    let w20: Vec<u8> = vec![0x47, 0x32, 0x30];
    let w21: Vec<u8> = vec![0x47, 0x32, 0x31];
    let w90: Vec<u8> = vec![0x47, 0x39, 0x30];
    let w91: Vec<u8> = vec![0x47, 0x39, 0x31];
    let w92: Vec<u8> = vec![0x47, 0x39, 0x32];
    let w486: Vec<u8> = vec![0x4d, 0x34, 0x38, 0x36];
    assert(w20@ =~= g20() && w21@ =~= g21() && w90@ =~= g90() && w91@ =~= g91() && w92@ =~= g92());
    assert(w486@ =~= m486());
    if has_tag(s, 0, w20.as_slice()) {
        assert(s@[0int + 2] == w20@[2]);
        return (Command::G20, 3);
    }
    if has_tag(s, 0, w21.as_slice()) {
        assert(s@[0int + 2] == w21@[2]);
        return (Command::G21, 3);
    }
    if has_tag(s, 0, w90.as_slice()) {
        assert(s@[0int + 2] == w90@[2]);
        return (Command::G90, 3);
    }
    if has_tag(s, 0, w91.as_slice()) {
        assert(s@[0int + 2] == w91@[2]);
        return (Command::G91, 3);
    }
    if has_tag(s, 0, w92.as_slice()) {
        match head_param_set(s, 3) {
            Some((v, e)) => return (Command::G92(v), e),
            None => {},
        }
    }
    match parse_comment(line, s) {
        Some((c, e)) => return (c, e),
        None => {},
    }
    if has_tag(s, 0, w486.as_slice()) {
        match parse_multipart(line, s, 4) {
            Some((m, e)) => return (Command::M486(m), e),
            None => {},
        }
    }
    match parse_g_drop(s) {
        Some((n, e)) => return (Command::GDrop(n), e),
        None => {},
    }
    match parse_m_drop(s) {
        Some((n, e)) => return (Command::MDrop(n), e),
        None => {},
    }
    (Command::Nop, 0)
}

fn parse_command(line: &str, s: &[u8]) -> (r: Result<(Command, usize), BlockError>)
    requires
        s@ == line.spec_bytes(),
    ensures
        match spec_parse_line(s@) {
            Ok((c, e)) => r matches Ok((cmd, e2)) && cmd@ == c && e2 == e,
            Err(err) => r matches Err(e2) && e2 == err,
        },
        r matches Ok((_, e)) ==> e == 0 || (e <= s@.len() && s@[e - 1] < 128),
{
    let w01: Vec<u8> = vec![0x47, 0x30, 0x31];
    let w1: Vec<u8> = vec![0x47, 0x31];
    let w00: Vec<u8> = vec![0x47, 0x30, 0x30];
    let w0: Vec<u8> = vec![0x47, 0x30];
    let w02: Vec<u8> = vec![0x47, 0x30, 0x32];
    let w2: Vec<u8> = vec![0x47, 0x32];
    let w03: Vec<u8> = vec![0x47, 0x30, 0x33];
    let w3: Vec<u8> = vec![0x47, 0x33];
    assert(w01@ =~= g01() && w1@ =~= g1() && w00@ =~= g00() && w0@ =~= g0());
    assert(w02@ =~= g02() && w2@ =~= g2() && w03@ =~= g03() && w3@ =~= g3());
    match opcode_len(s, w01.as_slice(), w1.as_slice()) {
        Some(t) => match head_param_set(s, t) {
            Some((v, e)) => return Ok((Command::G1(v), e)),
            None => {},
        },
        None => {},
    }
    match opcode_len(s, w00.as_slice(), w0.as_slice()) {
        Some(t) => match head_param_set(s, t) {
            Some((v, e)) => return Ok((Command::G0(v), e)),
            None => {},
        },
        None => {},
    }
    match parse_arc(s, w02.as_slice(), w2.as_slice(), true) {
        Some(r) => return r,
        None => {},
    }
    match parse_arc(s, w3.as_slice(), w03.as_slice(), false) {
        Some(r) => return r,
        None => {},
    }
    Ok(parse_rest_alternatives(line, s))
}

impl Command {
    /// Decodes the command that `line` starts with; returns what follows it
    /// and the command. Fails only with `InvalidArc`, for an arc whose
    /// parameters give both or neither of the `I`/`J` and `R` forms.
    pub fn parse_line(line: &str) -> (r: Result<(&str, Command), BlockError>)
        ensures
            match spec_parse_line(line.spec_bytes()) {
                Ok((c, e)) => r matches Ok((rest, cmd)) && cmd@ == c
                    && rest.spec_bytes() == line.spec_bytes().subrange(e, line.spec_bytes().len() as int),
                Err(err) => r matches Err(e2) && e2 == err,
            },
    {
        let s = line.as_bytes();
        match parse_command(line, s) {
            Ok((cmd, e)) => {
                proof {
                    encode_utf8_valid_utf8(line@);
                    if e == 0 {
                        lemma_cut_at_start(s@);
                    } else {
                        lemma_cut_after_ascii(s@, e as int);
                    }
                }
                Ok((rest_of(line, e), cmd))
            },
            Err(err) => Err(err),
        }
    }
}

/// A `G` code that needs no further action: `G` and its number.
pub fn g_drop(line: &str) -> (r: Option<(&str, u16)>)
    ensures
        match spec_g_drop(line.spec_bytes()) {
            Some((n, e)) => r matches Some((rest, n2)) && n2 == n
                && rest.spec_bytes() == line.spec_bytes().subrange(e, line.spec_bytes().len() as int),
            None => r is None,
        },
{
    let s = line.as_bytes();
    match parse_g_drop(s) {
        Some((n, e)) => {
            proof {
                encode_utf8_valid_utf8(line@);
                lemma_cut_after_ascii(s@, e as int);
            }
            Some((rest_of(line, e), n))
        },
        None => None,
    }
}

/// An `M` code that needs no further action: `M`, optional spaces and its number.
pub fn m_drop(line: &str) -> (r: Option<(&str, u16)>)
    ensures
        match spec_m_drop(line.spec_bytes()) {
            Some((n, e)) => r matches Some((rest, n2)) && n2 == n
                && rest.spec_bytes() == line.spec_bytes().subrange(e, line.spec_bytes().len() as int),
            None => r is None,
        },
{
    let s = line.as_bytes();
    match parse_m_drop(s) {
        Some((n, e)) => {
            proof {
                encode_utf8_valid_utf8(line@);
                lemma_cut_after_ascii(s@, e as int);
            }
            Some((rest_of(line, e), n))
        },
        None => None,
    }
}

/// Every linear move or `G92` that a line parses to holds each parameter
/// letter at most once, and exactly the letters written in its parameters.
pub proof fn lemma_linear_params_unique(s: Seq<u8>)
    ensures
        match spec_parse_line(s) {
            Ok((CommandView::G0(v), _)) => letters_unique(v),
            Ok((CommandView::G1(v), _)) => letters_unique(v),
            Ok((CommandView::G92(v), _)) => letters_unique(v),
            _ => true,
        },
{
    let t1 = opcode_end(s, g01(), g1());
    let t0 = opcode_end(s, g00(), g0());
    if t1 >= 0 {
        lemma_dedup_letters(spec_params(s, skip_spaces(s, t1), false, 11).0);
    }
    if t0 >= 0 {
        lemma_dedup_letters(spec_params(s, skip_spaces(s, t0), false, 11).0);
    }
    lemma_dedup_letters(spec_params(s, skip_spaces(s, 3), false, 11).0);
}

/// Every arc that a line parses to has `I` or `J`, or else `R`, never both,
/// and its form says which.
pub proof fn lemma_arc_form_exclusive(s: Seq<u8>)
    ensures
        match spec_parse_line(s) {
            Ok((CommandView::G2(FormView::IJ(v)), _)) => has_ij(v) && !has_r(v),
            Ok((CommandView::G2(FormView::R(v)), _)) => has_r(v) && !has_ij(v),
            Ok((CommandView::G3(FormView::IJ(v)), _)) => has_ij(v) && !has_r(v),
            Ok((CommandView::G3(FormView::R(v)), _)) => has_r(v) && !has_ij(v),
            _ => true,
        },
{
}

} // verus!

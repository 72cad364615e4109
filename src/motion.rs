//! What each command asks of the motion state and of the drawing, apart
//! from the coordinate arithmetic: which axes move, whether the extruder
//! pushes filament, whether a stroke ends, which object motion goes to.

use vstd::prelude::*;

use crate::block::BlockError;
use crate::command::Command;
use crate::command::Form;
use crate::multipart::MultiPartVal;
use crate::number::spec_is_at_most_zero;
use crate::number::spec_is_positive;
use crate::number::Number;
use crate::number::NumberView;
use crate::params::ArcVal;
use crate::params::PosVal;

verus! {

/// The value of the first parameter with letter `c`.
pub open spec fn find_param(vs: Seq<(u8, NumberView)>, c: u8) -> Option<NumberView>
    decreases vs.len(),
{
    if vs.len() == 0 {
        None
    } else if vs[0].0 == c {
        Some(vs[0].1)
    } else {
        find_param(vs.drop_first(), c)
    }
}

pub open spec fn opt_view(o: Option<Number>) -> Option<NumberView> {
    match o {
        Some(n) => Some(n@),
        None => None,
    }
}

/// The axes and extruder value of a linear move or `G92`.
#[derive(Debug)]
pub struct LinearParams {
    pub x: Option<Number>,
    pub y: Option<Number>,
    pub z: Option<Number>,
    pub e: Option<Number>,
}

/// Picks `X`, `Y`, `Z` and `E` out of a parameter set.
pub fn split_params(v: Vec<PosVal>) -> (r: LinearParams)
    ensures
        opt_view(r.x) == find_param(v@.map_values(|p: PosVal| p@), 0x58),
        opt_view(r.y) == find_param(v@.map_values(|p: PosVal| p@), 0x59),
        opt_view(r.z) == find_param(v@.map_values(|p: PosVal| p@), 0x5a),
        opt_view(r.e) == find_param(v@.map_values(|p: PosVal| p@), 0x45),
{
    let ghost all = v@.map_values(|p: PosVal| p@);
    let mut v = v;
    let mut r = LinearParams { x: None, y: None, z: None, e: None };
    while v.len() > 0
        invariant
            forall|c: u8| c == 0x58 || c == 0x59 || c == 0x5a || c == 0x45 ==> find_param(all, c) == ({
                let found = if c == 0x58 { opt_view(r.x) } else if c == 0x59 { opt_view(r.y) }
                    else if c == 0x5a { opt_view(r.z) } else { opt_view(r.e) };
                if found is Some { found } else { find_param(v@.map_values(|p: PosVal| p@), c) }
            }),
        decreases v@.len(),
    {
        let ghost before = v@.map_values(|p: PosVal| p@);
        let p = v.remove(0);
        proof {
            assert(before[0] == p@);
            assert(v@.map_values(|p: PosVal| p@) =~= before.drop_first());
        }
        match p {
            PosVal::X(n) => if r.x.is_none() { r.x = Some(n) },
            PosVal::Y(n) => if r.y.is_none() { r.y = Some(n) },
            PosVal::Z(n) => if r.z.is_none() { r.z = Some(n) },
            PosVal::E(n) => if r.e.is_none() { r.e = Some(n) },
            _ => {},
        }
    }
    assert(find_param(v@.map_values(|p: PosVal| p@), 0x58) is None);
    r
}

/// The target and centre offsets of an arc in centre-offset form.
#[derive(Debug)]
pub struct ArcValues {
    pub x: Option<Number>,
    pub y: Option<Number>,
    pub i: Option<Number>,
    pub j: Option<Number>,
}

/// Picks `X`, `Y`, `I` and `J` out of an arc's parameter set.
pub fn split_arc_params(v: Vec<ArcVal>) -> (r: ArcValues)
    ensures
        opt_view(r.x) == find_param(v@.map_values(|p: ArcVal| p@), 0x58),
        opt_view(r.y) == find_param(v@.map_values(|p: ArcVal| p@), 0x59),
        opt_view(r.i) == find_param(v@.map_values(|p: ArcVal| p@), 0x49),
        opt_view(r.j) == find_param(v@.map_values(|p: ArcVal| p@), 0x4a),
{
    let ghost all = v@.map_values(|p: ArcVal| p@);
    let mut v = v;
    let mut r = ArcValues { x: None, y: None, i: None, j: None };
    while v.len() > 0
        invariant
            forall|c: u8| c == 0x58 || c == 0x59 || c == 0x49 || c == 0x4a ==> find_param(all, c) == ({
                let found = if c == 0x58 { opt_view(r.x) } else if c == 0x59 { opt_view(r.y) }
                    else if c == 0x49 { opt_view(r.i) } else { opt_view(r.j) };
                if found is Some { found } else { find_param(v@.map_values(|p: ArcVal| p@), c) }
            }),
        decreases v@.len(),
    {
        let ghost before = v@.map_values(|p: ArcVal| p@);
        let p = v.remove(0);
        proof {
            assert(before[0] == p@);
            assert(v@.map_values(|p: ArcVal| p@) =~= before.drop_first());
        }
        match p {
            ArcVal::X(n) => if r.x.is_none() { r.x = Some(n) },
            ArcVal::Y(n) => if r.y.is_none() { r.y = Some(n) },
            ArcVal::I(n) => if r.i.is_none() { r.i = Some(n) },
            ArcVal::J(n) => if r.j.is_none() { r.j = Some(n) },
            _ => {},
        }
    }
    r
}

/// What one command asks for.
#[derive(Debug)]
pub enum Action {
    /// `G0`/`G1`: the axes given move (absolutely or relatively); the
    /// extruder then pushes filament exactly when `extruding` holds.
    Move { x: Option<Number>, y: Option<Number>, z: Option<Number>, extruding: bool },
    /// `G2`/`G3` in centre-offset form: an arc, always drawn.
    Arc { clockwise: bool, values: ArcValues },
    /// `G90`
    Absolute,
    /// `G91`
    Relative,
    /// `G92`: the axes given are redefined; with `close`, the extrusion
    /// stroke ends where the head stands.
    SetPosition { x: Option<Number>, y: Option<Number>, z: Option<Number>, close: bool },
    /// `M486 S`: object `id` starts, with an optional name.
    Start(i128, Option<String>),
    /// `M486 U`: object `id` is un-cancelled.
    Uncancel(i128),
    /// `M486 P` or `M486 C`: the job is cancelled.
    Cancel,
    /// `M486 A`: the active object is named.
    Name(String),
    /// Nothing to do (units, totals, comments, other codes).
    Ignore,
}

/// Whether the extruder pushes filament after a move with extruder value `e`.
pub open spec fn extruding_after(e: Option<NumberView>, before: bool) -> bool {
    match e {
        Some(v) => spec_is_positive(v),
        None => before,
    }
}

/// The arc that a centre-offset parameter set describes.
pub open spec fn arc_matches(values: ArcValues, v: Vec<ArcVal>) -> bool {
    let vs = v@.map_values(|p: ArcVal| p@);
    &&& opt_view(values.x) == find_param(vs, 0x58)
    &&& opt_view(values.y) == find_param(vs, 0x59)
    &&& opt_view(values.i) == find_param(vs, 0x49)
    &&& opt_view(values.j) == find_param(vs, 0x4a)
}

/// Decides what `command` asks for; `extruding` is whether the extruder
/// pushes filament before it. An arc in radius form is refused with
/// `UnimplementedArcRadiusForm`.
pub fn decide(command: Command, extruding: bool) -> (r: Result<Action, BlockError>)
    ensures
        match command {
            Command::G2(Form::R(_)) | Command::G3(Form::R(_)) => r == Err::<Action, BlockError>(BlockError::UnimplementedArcRadiusForm),
            _ => r is Ok,
        },
        r matches Ok(a) ==> match command {
            Command::G0(v) | Command::G1(v) => {
                let vs = v@.map_values(|p: PosVal| p@);
                a matches Action::Move { x, y, z, extruding: ex }
                    && opt_view(x) == find_param(vs, 0x58) && opt_view(y) == find_param(vs, 0x59)
                    && opt_view(z) == find_param(vs, 0x5a)
                    && ex == extruding_after(find_param(vs, 0x45), extruding)
            },
            Command::G2(Form::IJ(v)) => a matches Action::Arc { clockwise, values } && clockwise && arc_matches(values, v),
            Command::G3(Form::IJ(v)) => a matches Action::Arc { clockwise, values } && !clockwise && arc_matches(values, v),
            Command::G2(Form::R(_)) | Command::G3(Form::R(_)) => false,
            Command::G90 => a is Absolute,
            Command::G91 => a is Relative,
            Command::G92(v) => {
                let vs = v@.map_values(|p: PosVal| p@);
                a matches Action::SetPosition { x, y, z, close }
                    && opt_view(x) == find_param(vs, 0x58) && opt_view(y) == find_param(vs, 0x59)
                    && opt_view(z) == find_param(vs, 0x5a)
                    && close == (find_param(vs, 0x45) matches Some(e) && spec_is_at_most_zero(e))
            },
            Command::M486(MultiPartVal::S(id, name)) => a matches Action::Start(i, n) && i == id && n == name,
            Command::M486(MultiPartVal::U(id)) => a matches Action::Uncancel(i) && i == id,
            Command::M486(MultiPartVal::P(_)) => a is Cancel,
            Command::M486(MultiPartVal::C) => a is Cancel,
            Command::M486(MultiPartVal::A(name)) => a matches Action::Name(n) && n == name,
            _ => a is Ignore,
        },
{
    match command {
        Command::G0(v) | Command::G1(v) => {
            let p = split_params(v);
            let ex = match &p.e {
                Some(e) => e.is_positive(),
                None => extruding,
            };
            Ok(Action::Move { x: p.x, y: p.y, z: p.z, extruding: ex })
        },
        Command::G2(Form::IJ(v)) => Ok(Action::Arc { clockwise: true, values: split_arc_params(v) }),
        Command::G3(Form::IJ(v)) => Ok(Action::Arc { clockwise: false, values: split_arc_params(v) }),
        Command::G2(Form::R(_)) | Command::G3(Form::R(_)) => Err(BlockError::UnimplementedArcRadiusForm),
        Command::G90 => Ok(Action::Absolute),
        Command::G91 => Ok(Action::Relative),
        Command::G92(v) => {
            let p = split_params(v);
            let close = match &p.e {
                Some(e) => e.is_at_most_zero(),
                None => false,
            };
            Ok(Action::SetPosition { x: p.x, y: p.y, z: p.z, close })
        },
        Command::M486(MultiPartVal::S(id, name)) => Ok(Action::Start(id, name)),
        Command::M486(MultiPartVal::U(id)) => Ok(Action::Uncancel(id)),
        Command::M486(MultiPartVal::P(_)) => Ok(Action::Cancel),
        Command::M486(MultiPartVal::C) => Ok(Action::Cancel),
        Command::M486(MultiPartVal::A(name)) => Ok(Action::Name(name)),
        _ => Ok(Action::Ignore),
    }
}

} // verus!

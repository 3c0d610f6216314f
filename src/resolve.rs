use vstd::prelude::*;
use crate::geom::{Point, mid_spec, midpoint};
use crate::model::{Data, DataData, PointSignal, ResolvableTo, Step, StepData};
use crate::path::{DataRef, DataRefPathEl, Prop};

verus! {

/// Why a reference could not be resolved.
#[derive(Clone, Copy, Debug, PartialEq, Eq, Structural)]
pub enum ResolveError {
    /// The path names an id that its collection does not hold.
    UnknownId,
    /// The path names a property that the target entity does not have.
    InvalidProperty,
    /// More references were followed than the depth bound allows.
    UnresolvedCycle,
    /// The path does not have the shape collection, id, property names.
    MalformedPath,
}

/// How many references one resolution may follow before it gives up.
pub const MAX_REF_DEPTH: usize = 64;

/// The position of the first step with id `id`, searching from position `i`.
pub open spec fn step_index_from(steps: Seq<Step>, id: usize, i: int) -> Option<int>
    decreases steps.len() - i,
{
    if i < 0 || i >= steps.len() {
        None
    } else if steps[i].id == id {
        Some(i)
    } else {
        step_index_from(steps, id, i + 1)
    }
}

/// The position of the first step with id `id`.
pub open spec fn step_index(steps: Seq<Step>, id: usize) -> Option<int> {
    step_index_from(steps, id, 0)
}

/// The position of the first datum with id `id`, searching from position `i`.
pub open spec fn data_index_from(datas: Seq<Data>, id: usize, i: int) -> Option<int>
    decreases datas.len() - i,
{
    if i < 0 || i >= datas.len() {
        None
    } else if datas[i].id == id {
        Some(i)
    } else {
        data_index_from(datas, id, i + 1)
    }
}

/// The position of the first datum with id `id`.
pub open spec fn data_index(datas: Seq<Data>, id: usize) -> Option<int> {
    data_index_from(datas, id, 0)
}

/// A collection selector, an id, then one or more property names.
pub open spec fn well_shaped(path: Seq<DataRefPathEl>) -> bool {
    &&& path.len() >= 3
    &&& (path[0] is Step || path[0] is Data)
    &&& path[1] is WithId
    &&& forall|i: int| 2 <= i < path.len() ==> #[trigger] path[i] is PropName
}

/// The id that a well-shaped path selects.
pub open spec fn id_of(path: Seq<DataRefPathEl>) -> usize {
    match path[1] {
        DataRefPathEl::WithId(id) => id,
        _ => 0,
    }
}

/// The property name at position `i` of a well-shaped path.
pub open spec fn prop_at(path: Seq<DataRefPathEl>, i: int) -> Prop {
    match path[i] {
        DataRefPathEl::PropName(p) => p,
        _ => Prop::Own,
    }
}

pub open spec fn is_axis(p: Prop) -> bool {
    p is X || p is Y
}

/// The coordinate of `p` that an axis names.
pub open spec fn coord(p: Point, axis: Prop) -> i64 {
    if axis is X {
        p.x
    } else {
        p.y
    }
}

pub open spec fn coord_of(r: Result<Point, ResolveError>, axis: Prop) -> Result<i64, ResolveError> {
    match r {
        Ok(p) => Ok(coord(p, axis)),
        Err(e) => Err(e),
    }
}

/// Resolution of a point-valued path, following at most `fuel` references.
pub open spec fn point_at(
    steps: Seq<Step>,
    datas: Seq<Data>,
    path: Seq<DataRefPathEl>,
    fuel: nat,
) -> Result<Point, ResolveError>
    decreases fuel, 5nat,
{
    if !well_shaped(path) {
        Err(ResolveError::MalformedPath)
    } else if path[0] is Step {
        match step_index(steps, id_of(path)) {
            None => Err(ResolveError::UnknownId),
            Some(i) => if path.len() == 3 {
                step_anchor_at(steps, datas, steps[i].data, prop_at(path, 2), fuel)
            } else {
                Err(ResolveError::InvalidProperty)
            },
        }
    } else {
        match data_index(datas, id_of(path)) {
            None => Err(ResolveError::UnknownId),
            Some(i) => match datas[i].data {
                DataData::Point(ps) => if path.len() == 3 && prop_at(path, 2) is Own {
                    point_signal_at(steps, datas, ps, fuel)
                } else {
                    Err(ResolveError::InvalidProperty)
                },
                DataData::Number(_) => Err(ResolveError::InvalidProperty),
            },
        }
    }
}

/// Resolution of a number-valued path, following at most `fuel` references.
pub open spec fn number_at(
    steps: Seq<Step>,
    datas: Seq<Data>,
    path: Seq<DataRefPathEl>,
    fuel: nat,
) -> Result<i64, ResolveError>
    decreases fuel, 5nat,
{
    if !well_shaped(path) {
        Err(ResolveError::MalformedPath)
    } else if path[0] is Step {
        match step_index(steps, id_of(path)) {
            None => Err(ResolveError::UnknownId),
            Some(i) => if path.len() == 3 && is_axis(prop_at(path, 2)) {
                match steps[i].data {
                    StepData::DrawPoint(rp) => coord_of(
                        resolvable_point_at(steps, datas, rp, fuel),
                        prop_at(path, 2),
                    ),
                    StepData::DrawLine { .. } => Err(ResolveError::InvalidProperty),
                }
            } else if path.len() == 4 && is_axis(prop_at(path, 3)) {
                coord_of(
                    step_anchor_at(steps, datas, steps[i].data, prop_at(path, 2), fuel),
                    prop_at(path, 3),
                )
            } else {
                Err(ResolveError::InvalidProperty)
            },
        }
    } else {
        match data_index(datas, id_of(path)) {
            None => Err(ResolveError::UnknownId),
            Some(i) => match datas[i].data {
                DataData::Number(n) => if path.len() == 3 && prop_at(path, 2) is Own {
                    Ok(n)
                } else {
                    Err(ResolveError::InvalidProperty)
                },
                DataData::Point(ps) => if path.len() == 3 && is_axis(prop_at(path, 2)) {
                    coord_of(point_signal_at(steps, datas, ps, fuel), prop_at(path, 2))
                } else if path.len() == 4 && prop_at(path, 2) is Own && is_axis(prop_at(path, 3)) {
                    coord_of(point_signal_at(steps, datas, ps, fuel), prop_at(path, 3))
                } else {
                    Err(ResolveError::InvalidProperty)
                },
            },
        }
    }
}

/// The anchor point `p` of a step's data: `self` of a point; `start`, `mid`
/// (the mean of the two endpoints) or `end` of a line.
pub open spec fn step_anchor_at(
    steps: Seq<Step>,
    datas: Seq<Data>,
    data: StepData,
    p: Prop,
    fuel: nat,
) -> Result<Point, ResolveError>
    decreases fuel, 4nat,
{
    match data {
        StepData::DrawPoint(rp) => if p is Own {
            resolvable_point_at(steps, datas, rp, fuel)
        } else {
            Err(ResolveError::InvalidProperty)
        },
        StepData::DrawLine { start, end } => if p is Start {
            resolvable_point_at(steps, datas, start, fuel)
        } else if p is End {
            resolvable_point_at(steps, datas, end, fuel)
        } else if p is Mid {
            match resolvable_point_at(steps, datas, start, fuel) {
                Err(e) => Err(e),
                Ok(a) => match resolvable_point_at(steps, datas, end, fuel) {
                    Err(e) => Err(e),
                    Ok(b) => Ok(mid_spec(a, b)),
                },
            }
        } else {
            Err(ResolveError::InvalidProperty)
        },
    }
}

/// The value of a point slot: its literal, or what its reference resolves to.
pub open spec fn resolvable_point_at(
    steps: Seq<Step>,
    datas: Seq<Data>,
    rp: ResolvableTo<PointSignal>,
    fuel: nat,
) -> Result<Point, ResolveError>
    decreases fuel, 3nat,
{
    match rp {
        ResolvableTo::T(ps) => point_signal_at(steps, datas, ps, fuel),
        ResolvableTo::Ref(r) => if fuel == 0 {
            Err(ResolveError::UnresolvedCycle)
        } else {
            point_at(steps, datas, r@, (fuel - 1) as nat)
        },
    }
}

/// The value of an editable point: both coordinates resolved.
pub open spec fn point_signal_at(
    steps: Seq<Step>,
    datas: Seq<Data>,
    ps: PointSignal,
    fuel: nat,
) -> Result<Point, ResolveError>
    decreases fuel, 2nat,
{
    match resolvable_number_at(steps, datas, ps.x, fuel) {
        Err(e) => Err(e),
        Ok(x) => match resolvable_number_at(steps, datas, ps.y, fuel) {
            Err(e) => Err(e),
            Ok(y) => Ok(Point { x, y }),
        },
    }
}

/// The value of a number slot: its literal, or what its reference resolves to.
pub open spec fn resolvable_number_at(
    steps: Seq<Step>,
    datas: Seq<Data>,
    rn: ResolvableTo<i64>,
    fuel: nat,
) -> Result<i64, ResolveError>
    decreases fuel, 1nat,
{
    match rn {
        ResolvableTo::T(n) => Ok(n),
        ResolvableTo::Ref(r) => if fuel == 0 {
            Err(ResolveError::UnresolvedCycle)
        } else {
            number_at(steps, datas, r@, (fuel - 1) as nat)
        },
    }
}

/// What the search for a step finds: the first position, from `i` on, whose
/// step has the id; or nothing, when no step from `i` on has it.
pub proof fn lemma_step_index_from(steps: Seq<Step>, id: usize, i: int)
    requires
        0 <= i,
    ensures
        match step_index_from(steps, id, i) {
            Some(j) => i <= j < steps.len() && steps[j].id == id && forall|k: int|
                i <= k < j ==> #[trigger] steps[k].id != id,
            None => forall|k: int| i <= k < steps.len() ==> #[trigger] steps[k].id != id,
        },
    decreases steps.len() - i,
{
    if i < steps.len() && steps[i].id != id {
        lemma_step_index_from(steps, id, i + 1);
    }
}

/// What the search for a datum finds, as for steps.
pub proof fn lemma_data_index_from(datas: Seq<Data>, id: usize, i: int)
    requires
        0 <= i,
    ensures
        match data_index_from(datas, id, i) {
            Some(j) => i <= j < datas.len() && datas[j].id == id && forall|k: int|
                i <= k < j ==> #[trigger] datas[k].id != id,
            None => forall|k: int| i <= k < datas.len() ==> #[trigger] datas[k].id != id,
        },
    decreases datas.len() - i,
{
    if i < datas.len() && datas[i].id != id {
        lemma_data_index_from(datas, id, i + 1);
    }
}

/// The position of the first step with id `id`, if any.
pub fn find_step(steps: &Vec<Step>, id: usize) -> (r: Option<usize>)
    ensures
        match r {
            Some(i) => step_index(steps@, id) == Some(i as int) && i < steps@.len()
                && steps@[i as int].id == id,
            None => step_index(steps@, id) is None,
        },
{
    proof {
        lemma_step_index_from(steps@, id, 0);
    }
    let mut i: usize = 0;
    while i < steps.len()
        invariant
            i <= steps@.len(),
            step_index(steps@, id) == step_index_from(steps@, id, i as int),
        decreases steps@.len() - i,
    {
        if steps[i].id == id {
            return Some(i);
        }
        i += 1;
    }
    None
}

/// The position of the first datum with id `id`, if any.
pub fn find_data(datas: &Vec<Data>, id: usize) -> (r: Option<usize>)
    ensures
        match r {
            Some(i) => data_index(datas@, id) == Some(i as int) && i < datas@.len()
                && datas@[i as int].id == id,
            None => data_index(datas@, id) is None,
        },
{
    proof {
        lemma_data_index_from(datas@, id, 0);
    }
    let mut i: usize = 0;
    while i < datas.len()
        invariant
            i <= datas@.len(),
            data_index(datas@, id) == data_index_from(datas@, id, i as int),
        decreases datas@.len() - i,
    {
        if datas[i].id == id {
            return Some(i);
        }
        i += 1;
    }
    None
}

fn check_shape(path: &DataRef) -> (r: bool)
    ensures
        r == well_shaped(path@),
{
    let els = &path.0;
    if els.len() < 3 {
        return false;
    }
    match els[0] {
        DataRefPathEl::Step | DataRefPathEl::Data => {},
        _ => return false,
    }
    match els[1] {
        DataRefPathEl::WithId(_) => {},
        _ => return false,
    }
    let mut i: usize = 2;
    while i < els.len()
        invariant
            2 <= i <= els@.len(),
            els@ == path@,
            forall|j: int| 2 <= j < i ==> #[trigger] els@[j] is PropName,
        decreases els@.len() - i,
    {
        match els[i] {
            DataRefPathEl::PropName(_) => {},
            _ => {
                assert(!(path@[i as int] is PropName));
                return false;
            },
        }
        i += 1;
    }
    true
}

fn id_in(path: &DataRef) -> (r: usize)
    requires
        well_shaped(path@),
    ensures
        r == id_of(path@),
{
    match path.0[1] {
        DataRefPathEl::WithId(id) => id,
        _ => 0,
    }
}

fn prop_in(path: &DataRef, i: usize) -> (r: Prop)
    requires
        well_shaped(path@),
        2 <= i < path@.len(),
    ensures
        r == prop_at(path@, i as int),
{
    match path.0[i] {
        DataRefPathEl::PropName(p) => p,
        _ => Prop::Own,
    }
}

fn axis_of(p: Point, axis: Prop) -> (r: i64)
    ensures
        r == coord(p, axis),
{
    match axis {
        Prop::X => p.x,
        _ => p.y,
    }
}

fn coord_in(r: Result<Point, ResolveError>, axis: Prop) -> (c: Result<i64, ResolveError>)
    ensures
        c == coord_of(r, axis),
{
    match r {
        Ok(p) => Ok(axis_of(p, axis)),
        Err(e) => Err(e),
    }
}

fn is_axis_exec(p: Prop) -> (r: bool)
    ensures
        r == is_axis(p),
{
    match p {
        Prop::X | Prop::Y => true,
        _ => false,
    }
}

fn point_in(steps: &Vec<Step>, datas: &Vec<Data>, path: &DataRef, fuel: usize) -> (r: Result<
    Point,
    ResolveError,
>)
    ensures
        r == point_at(steps@, datas@, path@, fuel as nat),
    decreases fuel, 5nat,
{
    if !check_shape(path) {
        return Err(ResolveError::MalformedPath);
    }
    let id = id_in(path);
    match path.0[0] {
        DataRefPathEl::Step => match find_step(steps, id) {
            None => Err(ResolveError::UnknownId),
            Some(i) => if path.0.len() == 3 {
                step_anchor_in(steps, datas, &steps[i].data, prop_in(path, 2), fuel)
            } else {
                Err(ResolveError::InvalidProperty)
            },
        },
        _ => match find_data(datas, id) {
            None => Err(ResolveError::UnknownId),
            Some(i) => match &datas[i].data {
                DataData::Point(ps) => if path.0.len() == 3 && matches!(prop_in(path, 2), Prop::Own) {
                    point_signal_in(steps, datas, ps, fuel)
                } else {
                    Err(ResolveError::InvalidProperty)
                },
                DataData::Number(_) => Err(ResolveError::InvalidProperty),
            },
        },
    }
}

fn number_in(steps: &Vec<Step>, datas: &Vec<Data>, path: &DataRef, fuel: usize) -> (r: Result<
    i64,
    ResolveError,
>)
    ensures
        r == number_at(steps@, datas@, path@, fuel as nat),
    decreases fuel, 5nat,
{
    if !check_shape(path) {
        return Err(ResolveError::MalformedPath);
    }
    let id = id_in(path);
    let len = path.0.len();
    match path.0[0] {
        DataRefPathEl::Step => match find_step(steps, id) {
            None => Err(ResolveError::UnknownId),
            Some(i) => if len == 3 && is_axis_exec(prop_in(path, 2)) {
                match &steps[i].data {
                    StepData::DrawPoint(rp) => coord_in(
                        resolvable_point_in(steps, datas, rp, fuel),
                        prop_in(path, 2),
                    ),
                    StepData::DrawLine { .. } => Err(ResolveError::InvalidProperty),
                }
            } else if len == 4 && is_axis_exec(prop_in(path, 3)) {
                coord_in(
                    step_anchor_in(steps, datas, &steps[i].data, prop_in(path, 2), fuel),
                    prop_in(path, 3),
                )
            } else {
                Err(ResolveError::InvalidProperty)
            },
        },
        _ => match find_data(datas, id) {
            None => Err(ResolveError::UnknownId),
            Some(i) => match &datas[i].data {
                DataData::Number(n) => if len == 3 && matches!(prop_in(path, 2), Prop::Own) {
                    Ok(*n)
                } else {
                    Err(ResolveError::InvalidProperty)
                },
                DataData::Point(ps) => if len == 3 && is_axis_exec(prop_in(path, 2)) {
                    coord_in(point_signal_in(steps, datas, ps, fuel), prop_in(path, 2))
                } else if len == 4 && matches!(prop_in(path, 2), Prop::Own) && is_axis_exec(
                    prop_in(path, 3),
                ) {
                    coord_in(point_signal_in(steps, datas, ps, fuel), prop_in(path, 3))
                } else {
                    Err(ResolveError::InvalidProperty)
                },
            },
        },
    }
}

fn step_anchor_in(
    steps: &Vec<Step>,
    datas: &Vec<Data>,
    data: &StepData,
    p: Prop,
    fuel: usize,
) -> (r: Result<Point, ResolveError>)
    ensures
        r == step_anchor_at(steps@, datas@, *data, p, fuel as nat),
    decreases fuel, 4nat,
{
    match data {
        StepData::DrawPoint(rp) => match p {
            Prop::Own => resolvable_point_in(steps, datas, rp, fuel),
            _ => Err(ResolveError::InvalidProperty),
        },
        StepData::DrawLine { start, end } => match p {
            Prop::Start => resolvable_point_in(steps, datas, start, fuel),
            Prop::End => resolvable_point_in(steps, datas, end, fuel),
            Prop::Mid => match resolvable_point_in(steps, datas, start, fuel) {
                Err(e) => Err(e),
                Ok(a) => match resolvable_point_in(steps, datas, end, fuel) {
                    Err(e) => Err(e),
                    Ok(b) => Ok(midpoint(a, b)),
                },
            },
            _ => Err(ResolveError::InvalidProperty),
        },
    }
}

fn resolvable_point_in(
    steps: &Vec<Step>,
    datas: &Vec<Data>,
    rp: &ResolvableTo<PointSignal>,
    fuel: usize,
) -> (r: Result<Point, ResolveError>)
    ensures
        r == resolvable_point_at(steps@, datas@, *rp, fuel as nat),
    decreases fuel, 3nat,
{
    match rp {
        ResolvableTo::T(ps) => point_signal_in(steps, datas, ps, fuel),
        ResolvableTo::Ref(r) => if fuel == 0 {
            Err(ResolveError::UnresolvedCycle)
        } else {
            point_in(steps, datas, r, fuel - 1)
        },
    }
}

fn point_signal_in(steps: &Vec<Step>, datas: &Vec<Data>, ps: &PointSignal, fuel: usize) -> (r:
    Result<Point, ResolveError>)
    ensures
        r == point_signal_at(steps@, datas@, *ps, fuel as nat),
    decreases fuel, 2nat,
{
    match resolvable_number_in(steps, datas, &ps.x, fuel) {
        Err(e) => Err(e),
        Ok(x) => match resolvable_number_in(steps, datas, &ps.y, fuel) {
            Err(e) => Err(e),
            Ok(y) => Ok(Point { x, y }),
        },
    }
}

fn resolvable_number_in(
    steps: &Vec<Step>,
    datas: &Vec<Data>,
    rn: &ResolvableTo<i64>,
    fuel: usize,
) -> (r: Result<i64, ResolveError>)
    ensures
        r == resolvable_number_at(steps@, datas@, *rn, fuel as nat),
    decreases fuel, 1nat,
{
    match rn {
        ResolvableTo::T(n) => Ok(*n),
        ResolvableTo::Ref(r) => if fuel == 0 {
            Err(ResolveError::UnresolvedCycle)
        } else {
            number_in(steps, datas, r, fuel - 1)
        },
    }
}

impl DataRef {
    /// Resolves this path to a point, following at most `MAX_REF_DEPTH` references.
    pub fn resolve_point(&self, steps: &Vec<Step>, datas: &Vec<Data>) -> (r: Result<Point, ResolveError>)
        ensures
            r == point_at(steps@, datas@, self@, MAX_REF_DEPTH as nat),
    {
        point_in(steps, datas, self, MAX_REF_DEPTH)
    }

    /// Resolves this path to a number, following at most `MAX_REF_DEPTH` references.
    pub fn resolve_number(&self, steps: &Vec<Step>, datas: &Vec<Data>) -> (r: Result<i64, ResolveError>)
        ensures
            r == number_at(steps@, datas@, self@, MAX_REF_DEPTH as nat),
    {
        number_in(steps, datas, self, MAX_REF_DEPTH)
    }
}

impl ResolvableTo<PointSignal> {
    /// The concrete point this slot stands for, following at most
    /// `MAX_REF_DEPTH` references.
    pub fn resolve(&self, steps: &Vec<Step>, datas: &Vec<Data>) -> (r: Result<Point, ResolveError>)
        ensures
            r == resolvable_point_at(steps@, datas@, *self, MAX_REF_DEPTH as nat),
    {
        resolvable_point_in(steps, datas, self, MAX_REF_DEPTH)
    }
}

impl ResolvableTo<i64> {
    /// The concrete number this slot stands for, following at most
    /// `MAX_REF_DEPTH` references.
    pub fn resolve(&self, steps: &Vec<Step>, datas: &Vec<Data>) -> (r: Result<i64, ResolveError>)
        ensures
            r == resolvable_number_at(steps@, datas@, *self, MAX_REF_DEPTH as nat),
    {
        resolvable_number_in(steps, datas, self, MAX_REF_DEPTH)
    }
}

} // verus!

use vstd::prelude::*;
use crate::geom::Point;
use crate::path::{DataRef, DataRefPathEl, Prop};

verus! {

/// A value that is either a literal, or a reference to a quantity elsewhere.
#[derive(Clone, Debug, PartialEq, Eq)]
pub enum ResolvableTo<T> {
    /// A literal value.
    T(T),
    /// A reference to another entity's value.
    Ref(DataRef),
}

/// The editable form of a point: each coordinate a literal or a reference.
#[derive(Clone, Debug, PartialEq, Eq)]
pub struct PointSignal {
    pub x: ResolvableTo<i64>,
    pub y: ResolvableTo<i64>,
}

/// What a drawing step draws.
#[derive(Clone, Debug, PartialEq, Eq)]
pub enum StepData {
    /// A single point.
    DrawPoint(ResolvableTo<PointSignal>),
    /// A segment between two points.
    DrawLine { start: ResolvableTo<PointSignal>, end: ResolvableTo<PointSignal> },
}

/// A drawing step, with its id in the step collection.
#[derive(Clone, Debug, PartialEq, Eq)]
pub struct Step {
    pub id: usize,
    pub data: StepData,
}

/// What a free-standing datum holds.
#[derive(Clone, Debug, PartialEq, Eq)]
pub enum DataData {
    /// A number.
    Number(i64),
    /// A point.
    Point(PointSignal),
}

/// A free-standing datum, with its id in the data collection.
#[derive(Clone, Debug, PartialEq, Eq)]
pub struct Data {
    pub id: usize,
    pub data: DataData,
}

/// The path `step[id].p`.
pub open spec fn anchor_path(id: usize, p: Prop) -> Seq<DataRefPathEl> {
    seq![DataRefPathEl::Step, DataRefPathEl::WithId(id), DataRefPathEl::PropName(p)]
}

/// The anchors that a step exposes, as paths: `self` for a point; `start`,
/// `mid` and `end` for a line.
pub open spec fn anchors_of(id: usize, data: StepData) -> Seq<Seq<DataRefPathEl>> {
    match data {
        StepData::DrawPoint(_) => seq![anchor_path(id, Prop::Own)],
        StepData::DrawLine { .. } => seq![
            anchor_path(id, Prop::Start),
            anchor_path(id, Prop::Mid),
            anchor_path(id, Prop::End),
        ],
    }
}

/// The paths that a sequence of references holds.
pub open spec fn paths_of(v: Seq<DataRef>) -> Seq<Seq<DataRefPathEl>> {
    v.map_values(|d: DataRef| d@)
}

/// A literal point whose coordinates are literals.
pub open spec fn literal_point_spec(p: Point) -> ResolvableTo<PointSignal> {
    ResolvableTo::T(PointSignal { x: ResolvableTo::T(p.x), y: ResolvableTo::T(p.y) })
}

/// A literal point slot holding the coordinates of `p`.
pub fn literal_point(p: Point) -> (r: ResolvableTo<PointSignal>)
    ensures
        r == literal_point_spec(p),
{
    ResolvableTo::T(PointSignal { x: ResolvableTo::T(p.x), y: ResolvableTo::T(p.y) })
}

impl DataRef {
    /// The path `step[id].p`.
    pub fn step_anchor(id: usize, p: Prop) -> (r: DataRef)
        ensures
            r@ == anchor_path(id, p),
    {
        let v = vec![DataRefPathEl::Step, DataRefPathEl::WithId(id), DataRefPathEl::PropName(p)];
        let r = DataRef(v);
        assert(r@ =~= anchor_path(id, p));
        r
    }
}

impl Step {
    /// The anchors of this step: one for a point, three for a line.
    pub fn snap_points(&self) -> (r: Vec<DataRef>)
        ensures
            paths_of(r@) == anchors_of(self.id, self.data),
    {
        match self.data {
            StepData::DrawPoint(_) => {
                let r = vec![DataRef::step_anchor(self.id, Prop::Own)];
                assert(paths_of(r@) =~= anchors_of(self.id, self.data));
                r
            },
            StepData::DrawLine { .. } => {
                let r = vec![
                    DataRef::step_anchor(self.id, Prop::Start),
                    DataRef::step_anchor(self.id, Prop::Mid),
                    DataRef::step_anchor(self.id, Prop::End),
                ];
                assert(paths_of(r@) =~= anchors_of(self.id, self.data));
                r
            },
        }
    }
}

} // verus!

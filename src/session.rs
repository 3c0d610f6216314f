use vstd::prelude::*;
use crate::geom::{HIT_THRESHOLD, Point, dist_sq, near_dist_sq, within_threshold};
use crate::model::{
    Data, DataData, PointSignal, ResolvableTo, Step, StepData, anchor_path, anchors_of,
    literal_point, literal_point_spec, paths_of,
};
use crate::path::{DataRef, DataRefPathEl, Prop};
use crate::resolve::{
    MAX_REF_DEPTH, data_index, find_data, find_step,
    lemma_data_index_from, lemma_step_index_from, point_at, step_index, step_index_from,
};

verus! {

/// Which point of a step a slot holds.
#[derive(Clone, Copy, Debug, PartialEq, Eq, Structural)]
pub enum PointRole {
    /// The point of a point step.
    Own,
    /// The first endpoint of a line step.
    Start,
    /// The second endpoint of a line step.
    End,
}

/// One coordinate of a point.
#[derive(Clone, Copy, Debug, PartialEq, Eq, Structural)]
pub enum Axis {
    X,
    Y,
}

/// The address of a point slot: a step and which of its points.
#[derive(Clone, Copy, Debug, PartialEq, Eq, Structural)]
pub struct PointSlot {
    pub step: usize,
    pub role: PointRole,
}

/// The address of a number slot: a coordinate of a step's literal point, or
/// of a point datum.
#[derive(Clone, Copy, Debug, PartialEq, Eq, Structural)]
pub enum NumberSlot {
    Step { point: PointSlot, axis: Axis },
    Data { data: usize, axis: Axis },
}

/// The slot that an infer gesture will rebind.
#[derive(Clone, Copy, Debug, PartialEq, Eq, Structural)]
pub enum InferTarget {
    Number(NumberSlot),
    Point(PointSlot),
}

/// The property under which a point slot's anchor is addressed.
pub open spec fn role_prop(role: PointRole) -> Prop {
    match role {
        PointRole::Own => Prop::Own,
        PointRole::Start => Prop::Start,
        PointRole::End => Prop::End,
    }
}

pub open spec fn axis_prop(axis: Axis) -> Prop {
    match axis {
        Axis::X => Prop::X,
        Axis::Y => Prop::Y,
    }
}

/// The path of the point that a slot holds.
pub open spec fn point_slot_path(slot: PointSlot) -> Seq<DataRefPathEl> {
    anchor_path(slot.step, role_prop(slot.role))
}

/// The path of the number that a slot holds: `step[i].x` for a point step,
/// `step[i].start.x` for a line's endpoint, `data[i].x` for a point datum.
pub open spec fn number_slot_path(slot: NumberSlot) -> Seq<DataRefPathEl> {
    match slot {
        NumberSlot::Step { point, axis } => if point.role is Own {
            seq![
                DataRefPathEl::Step,
                DataRefPathEl::WithId(point.step),
                DataRefPathEl::PropName(axis_prop(axis)),
            ]
        } else {
            point_slot_path(point).push(DataRefPathEl::PropName(axis_prop(axis)))
        },
        NumberSlot::Data { data, axis } => seq![
            DataRefPathEl::Data,
            DataRefPathEl::WithId(data),
            DataRefPathEl::PropName(axis_prop(axis)),
        ],
    }
}

/// The point that `role` names in a step's data, if the step has it.
pub open spec fn point_of(data: StepData, role: PointRole) -> Option<ResolvableTo<PointSignal>> {
    match data {
        StepData::DrawPoint(p) => if role is Own {
            Some(p)
        } else {
            None
        },
        StepData::DrawLine { start, end } => if role is Start {
            Some(start)
        } else if role is End {
            Some(end)
        } else {
            None
        },
    }
}

/// The step data with the point that `role` names replaced by `v`.
pub open spec fn replace_point(data: StepData, role: PointRole, v: ResolvableTo<PointSignal>) -> StepData {
    match data {
        StepData::DrawPoint(p) => if role is Own {
            StepData::DrawPoint(v)
        } else {
            data
        },
        StepData::DrawLine { start, end } => if role is Start {
            StepData::DrawLine { start: v, end }
        } else if role is End {
            StepData::DrawLine { start, end: v }
        } else {
            data
        },
    }
}

/// What a point slot holds, if the slot exists.
pub open spec fn point_slot_value(steps: Seq<Step>, slot: PointSlot) -> Option<
    ResolvableTo<PointSignal>,
> {
    match step_index(steps, slot.step) {
        Some(i) => point_of(steps[i].data, slot.role),
        None => None,
    }
}

/// The steps with the point slot set to `v`; unchanged if the slot does not exist.
pub open spec fn with_point_slot(steps: Seq<Step>, slot: PointSlot, v: ResolvableTo<PointSignal>) -> Seq<
    Step,
> {
    match step_index(steps, slot.step) {
        Some(i) => if point_of(steps[i].data, slot.role) is Some {
            steps.update(i, Step { id: steps[i].id, data: replace_point(steps[i].data, slot.role, v) })
        } else {
            steps
        },
        None => steps,
    }
}

pub open spec fn coord_slot(ps: PointSignal, axis: Axis) -> ResolvableTo<i64> {
    match axis {
        Axis::X => ps.x,
        Axis::Y => ps.y,
    }
}

pub open spec fn with_coord(ps: PointSignal, axis: Axis, v: ResolvableTo<i64>) -> PointSignal {
    match axis {
        Axis::X => PointSignal { x: v, y: ps.y },
        Axis::Y => PointSignal { x: ps.x, y: v },
    }
}

/// What a number slot holds, if the slot exists: the point that holds it must
/// be a literal.
pub open spec fn number_slot_value(steps: Seq<Step>, datas: Seq<Data>, slot: NumberSlot) -> Option<
    ResolvableTo<i64>,
> {
    match slot {
        NumberSlot::Step { point, axis } => match point_slot_value(steps, point) {
            Some(ResolvableTo::T(ps)) => Some(coord_slot(ps, axis)),
            _ => None,
        },
        NumberSlot::Data { data, axis } => match data_index(datas, data) {
            Some(i) => match datas[i].data {
                DataData::Point(ps) => Some(coord_slot(ps, axis)),
                DataData::Number(_) => None,
            },
            None => None,
        },
    }
}

/// The steps after setting a number slot; unchanged if the slot is not a step's.
pub open spec fn steps_with_number_slot(
    steps: Seq<Step>,
    datas: Seq<Data>,
    slot: NumberSlot,
    v: ResolvableTo<i64>,
) -> Seq<Step> {
    match slot {
        NumberSlot::Step { point, axis } => match point_slot_value(steps, point) {
            Some(ResolvableTo::T(ps)) => with_point_slot(
                steps,
                point,
                ResolvableTo::T(with_coord(ps, axis, v)),
            ),
            _ => steps,
        },
        NumberSlot::Data { .. } => steps,
    }
}

/// The data after setting a number slot; unchanged if the slot is not a datum's.
pub open spec fn datas_with_number_slot(
    datas: Seq<Data>,
    slot: NumberSlot,
    v: ResolvableTo<i64>,
) -> Seq<Data> {
    match slot {
        NumberSlot::Data { data, axis } => match data_index(datas, data) {
            Some(i) => match datas[i].data {
                DataData::Point(ps) => datas.update(
                    i,
                    Data { id: datas[i].id, data: DataData::Point(with_coord(ps, axis, v)) },
                ),
                DataData::Number(_) => datas,
            },
            None => datas,
        },
        NumberSlot::Step { .. } => datas,
    }
}

/// The anchors of every step, in step order.
pub open spec fn snap_index_spec(steps: Seq<Step>) -> Seq<Seq<DataRefPathEl>>
    decreases steps.len(),
{
    if steps.len() == 0 {
        Seq::empty()
    } else {
        snap_index_spec(steps.drop_last()) + anchors_of(steps.last().id, steps.last().data)
    }
}

/// No two entities share an id.
pub open spec fn step_ids_unique(steps: Seq<Step>) -> bool {
    forall|i: int, j: int| 0 <= i < j < steps.len() ==> #[trigger] steps[i].id != #[trigger] steps[j].id
}

pub open spec fn data_ids_unique(datas: Seq<Data>) -> bool {
    forall|i: int, j: int| 0 <= i < j < datas.len() ==> #[trigger] datas[i].id != #[trigger] datas[j].id
}

/// The editing session: steps, data, the armed infer target and the
/// memoized snap-point index.
pub struct Session {
    pub steps: Vec<Step>,
    pub datas: Vec<Data>,
    pub infer_target: Option<InferTarget>,
    /// The anchors of every step, kept up to date on structural changes only.
    pub snap: Vec<DataRef>,
    /// The id that the next step will get.
    pub next_step_id: usize,
    /// The id that the next datum will get.
    pub next_data_id: usize,
}

impl Session {
    /// Ids are unique and below the next id of their collection, and the
    /// snap index holds the anchors of the current steps.
    pub open spec fn wf(&self) -> bool {
        &&& step_ids_unique(self.steps@)
        &&& data_ids_unique(self.datas@)
        &&& forall|i: int| 0 <= i < self.steps@.len() ==> #[trigger] self.steps@[i].id < self.next_step_id
        &&& forall|i: int| 0 <= i < self.datas@.len() ==> #[trigger] self.datas@[i].id < self.next_data_id
        &&& paths_of(self.snap@) == snap_index_spec(self.steps@)
    }
}

/// Two step sequences with the same ids at the same positions find the same
/// position for every id.
pub proof fn lemma_same_ids_same_index(a: Seq<Step>, b: Seq<Step>, id: usize, i: int)
    requires
        a.len() == b.len(),
        forall|k: int| 0 <= k < a.len() ==> #[trigger] a[k].id == b[k].id,
    ensures
        step_index_from(a, id, i) == step_index_from(b, id, i),
    decreases a.len() - i,
{
    if 0 <= i < a.len() && a[i].id != id {
        lemma_same_ids_same_index(a, b, id, i + 1);
    }
}

/// Two step sequences with the same ids and kinds at the same positions have
/// the same snap index: values do not enter it.
pub proof fn lemma_snap_index_shape(a: Seq<Step>, b: Seq<Step>)
    requires
        a.len() == b.len(),
        forall|k: int| 0 <= k < a.len() ==> #[trigger] a[k].id == b[k].id,
        forall|k: int| 0 <= k < a.len() ==> (#[trigger] a[k].data is DrawPoint <==> b[k].data is DrawPoint),
    ensures
        snap_index_spec(a) == snap_index_spec(b),
    decreases a.len(),
{
    if a.len() > 0 {
        let (a1, b1) = (a.drop_last(), b.drop_last());
        assert forall|k: int| 0 <= k < a1.len() implies #[trigger] a1[k].id == b1[k].id by {
            assert(a[k].id == b[k].id);
        }
        assert forall|k: int| 0 <= k < a1.len() implies (#[trigger] a1[k].data is DrawPoint
            <==> b1[k].data is DrawPoint) by {
            assert(a[k].data is DrawPoint <==> b[k].data is DrawPoint);
        }
        lemma_snap_index_shape(a1, b1);
        assert(a.last().data is DrawPoint <==> b.last().data is DrawPoint);
        assert(anchors_of(a.last().id, a.last().data) == anchors_of(b.last().id, b.last().data));
    }
}

/// Replacing one step by a step with the same id and kind keeps the session
/// invariant's id and index facts.
proof fn lemma_replace_step(s: Seq<Step>, i: int, st: Step, next: usize)
    requires
        0 <= i < s.len(),
        st.id == s[i].id,
        st.data is DrawPoint <==> s[i].data is DrawPoint,
        step_ids_unique(s),
        forall|k: int| 0 <= k < s.len() ==> #[trigger] s[k].id < next,
    ensures
        step_ids_unique(s.update(i, st)),
        forall|k: int| 0 <= k < s.len() ==> #[trigger] s.update(i, st)[k].id < next,
        snap_index_spec(s.update(i, st)) == snap_index_spec(s),
        forall|id: usize| step_index(s.update(i, st), id) == step_index(s, id),
{
    let t = s.update(i, st);
    assert forall|k: int| 0 <= k < s.len() implies #[trigger] t[k].id == s[k].id by {}
    assert forall|k: int| 0 <= k < s.len() implies (#[trigger] t[k].data is DrawPoint
        <==> s[k].data is DrawPoint) by {}
    lemma_snap_index_shape(t, s);
    assert forall|id: usize| step_index(t, id) == step_index(s, id) by {
        lemma_same_ids_same_index(t, s, id, 0);
    }
    assert forall|a: int, b: int| 0 <= a < b < t.len() implies #[trigger] t[a].id != #[trigger] t[b].id by {
        assert(s[a].id != s[b].id);
    }
}

fn has_point(data: &StepData, role: PointRole) -> (r: bool)
    ensures
        r == point_of(*data, role) is Some,
{
    match data {
        StepData::DrawPoint(_) => matches!(role, PointRole::Own),
        StepData::DrawLine { .. } => matches!(role, PointRole::Start | PointRole::End),
    }
}

fn has_literal_point(data: &StepData, role: PointRole) -> (r: bool)
    ensures
        r == (point_of(*data, role) matches Some(ResolvableTo::T(_))),
{
    match data {
        StepData::DrawPoint(p) => matches!(role, PointRole::Own) && matches!(p, ResolvableTo::T(_)),
        StepData::DrawLine { start, end } => match role {
            PointRole::Start => matches!(start, ResolvableTo::T(_)),
            PointRole::End => matches!(end, ResolvableTo::T(_)),
            PointRole::Own => false,
        },
    }
}

fn replace_point_in(data: StepData, role: PointRole, v: ResolvableTo<PointSignal>) -> (r: StepData)
    ensures
        r == replace_point(data, role, v),
{
    match data {
        StepData::DrawPoint(p) => match role {
            PointRole::Own => StepData::DrawPoint(v),
            _ => StepData::DrawPoint(p),
        },
        StepData::DrawLine { start, end } => match role {
            PointRole::Start => StepData::DrawLine { start: v, end },
            PointRole::End => StepData::DrawLine { start, end: v },
            PointRole::Own => StepData::DrawLine { start, end },
        },
    }
}

fn with_coord_in(ps: PointSignal, axis: Axis, v: ResolvableTo<i64>) -> (r: PointSignal)
    ensures
        r == with_coord(ps, axis, v),
{
    let PointSignal { x, y } = ps;
    match axis {
        Axis::X => PointSignal { x: v, y },
        Axis::Y => PointSignal { x, y: v },
    }
}

fn set_coord_in_point(rp: ResolvableTo<PointSignal>, axis: Axis, v: ResolvableTo<i64>) -> (r:
    ResolvableTo<PointSignal>)
    ensures
        match rp {
            ResolvableTo::T(ps) => r == ResolvableTo::<PointSignal>::T(with_coord(ps, axis, v)),
            ResolvableTo::Ref(_) => r == rp,
        },
{
    match rp {
        ResolvableTo::T(ps) => ResolvableTo::T(with_coord_in(ps, axis, v)),
        ResolvableTo::Ref(d) => ResolvableTo::Ref(d),
    }
}

fn set_coord_in(data: StepData, role: PointRole, axis: Axis, v: ResolvableTo<i64>) -> (r: StepData)
    ensures
        match point_of(data, role) {
            Some(ResolvableTo::T(ps)) => r == replace_point(
                data,
                role,
                ResolvableTo::T(with_coord(ps, axis, v)),
            ),
            _ => r == data,
        },
{
    match data {
        StepData::DrawPoint(p) => match role {
            PointRole::Own => StepData::DrawPoint(set_coord_in_point(p, axis, v)),
            _ => StepData::DrawPoint(p),
        },
        StepData::DrawLine { start, end } => match role {
            PointRole::Start => StepData::DrawLine { start: set_coord_in_point(start, axis, v), end },
            PointRole::End => StepData::DrawLine { start, end: set_coord_in_point(end, axis, v) },
            PointRole::Own => StepData::DrawLine { start, end },
        },
    }
}

impl PointSlot {
    /// The path of the point this slot holds, such as `step[2].start`.
    pub fn path(&self) -> (r: DataRef)
        ensures
            r@ == point_slot_path(*self),
    {
        let p = match self.role {
            PointRole::Own => Prop::Own,
            PointRole::Start => Prop::Start,
            PointRole::End => Prop::End,
        };
        DataRef::step_anchor(self.step, p)
    }
}

fn axis_name(axis: Axis) -> (r: Prop)
    ensures
        r == axis_prop(axis),
{
    match axis {
        Axis::X => Prop::X,
        Axis::Y => Prop::Y,
    }
}

impl NumberSlot {
    /// The path of the number this slot holds, such as `step[2].start.x`.
    pub fn path(&self) -> (r: DataRef)
        ensures
            r@ == number_slot_path(*self),
    {
        match self {
            NumberSlot::Step { point, axis } => {
                if matches!(point.role, PointRole::Own) {
                    let r = DataRef(
                        vec![
                            DataRefPathEl::Step,
                            DataRefPathEl::WithId(point.step),
                            DataRefPathEl::PropName(axis_name(*axis)),
                        ],
                    );
                    assert(r@ =~= number_slot_path(*self));
                    r
                } else {
                    let mut r = point.path();
                    r.0.push(DataRefPathEl::PropName(axis_name(*axis)));
                    r
                }
            },
            NumberSlot::Data { data, axis } => {
                let r = DataRef(
                    vec![
                        DataRefPathEl::Data,
                        DataRefPathEl::WithId(*data),
                        DataRefPathEl::PropName(axis_name(*axis)),
                    ],
                );
                assert(r@ =~= number_slot_path(*self));
                r
            },
        }
    }
}

impl Session {
    /// An empty session: no steps, no data, nothing armed.
    pub fn new() -> (r: Session)
        ensures
            r.wf(),
            r.steps@.len() == 0,
            r.datas@.len() == 0,
            r.infer_target is None,
            r.next_step_id == 0,
            r.next_data_id == 0,
    {
        let r = Session {
            steps: Vec::new(),
            datas: Vec::new(),
            infer_target: None,
            snap: Vec::new(),
            next_step_id: 0,
            next_data_id: 0,
        };
        assert(paths_of(r.snap@) =~= snap_index_spec(r.steps@));
        r
    }

    /// What a point slot holds, if the slot exists.
    pub fn point_slot(&self, slot: PointSlot) -> (r: Option<&ResolvableTo<PointSignal>>)
        ensures
            match r {
                Some(v) => point_slot_value(self.steps@, slot) == Some(*v),
                None => point_slot_value(self.steps@, slot) is None,
            },
    {
        match find_step(&self.steps, slot.step) {
            None => None,
            Some(i) => match &self.steps[i].data {
                StepData::DrawPoint(p) => match slot.role {
                    PointRole::Own => Some(p),
                    _ => None,
                },
                StepData::DrawLine { start, end } => match slot.role {
                    PointRole::Start => Some(start),
                    PointRole::End => Some(end),
                    PointRole::Own => None,
                },
            },
        }
    }

    /// What a number slot holds, if the slot exists.
    pub fn number_slot(&self, slot: NumberSlot) -> (r: Option<&ResolvableTo<i64>>)
        ensures
            match r {
                Some(v) => number_slot_value(self.steps@, self.datas@, slot) == Some(*v),
                None => number_slot_value(self.steps@, self.datas@, slot) is None,
            },
    {
        match slot {
            NumberSlot::Step { point, axis } => match self.point_slot(point) {
                Some(ResolvableTo::T(ps)) => match axis {
                    Axis::X => Some(&ps.x),
                    Axis::Y => Some(&ps.y),
                },
                _ => None,
            },
            NumberSlot::Data { data, axis } => match find_data(&self.datas, data) {
                None => None,
                Some(i) => match &self.datas[i].data {
                    DataData::Point(ps) => match axis {
                        Axis::X => Some(&ps.x),
                        Axis::Y => Some(&ps.y),
                    },
                    DataData::Number(_) => None,
                },
            },
        }
    }

    /// Arms the infer gesture on `target`, replacing any earlier target.
    pub fn arm_infer(&mut self, target: InferTarget)
        requires
            old(self).wf(),
        ensures
            final(self).wf(),
            final(self).infer_target == Some(target),
            final(self).steps == old(self).steps,
            final(self).datas == old(self).datas,
            final(self).snap == old(self).snap,
    {
        self.infer_target = Some(target);
    }

    /// Cancels the infer gesture; no slot changes.
    pub fn cancel_infer(&mut self)
        requires
            old(self).wf(),
        ensures
            final(self).wf(),
            final(self).infer_target is None,
            final(self).steps == old(self).steps,
            final(self).datas == old(self).datas,
            final(self).snap == old(self).snap,
    {
        self.infer_target = None;
    }

    /// Sets a point slot to `v`. Returns whether the slot exists; when it does
    /// not, nothing changes. The snap index stays valid without recomputation.
    pub fn set_point(&mut self, slot: PointSlot, v: ResolvableTo<PointSignal>) -> (r: bool)
        requires
            old(self).wf(),
        ensures
            final(self).wf(),
            r == point_slot_value(old(self).steps@, slot) is Some,
            final(self).steps@ == with_point_slot(old(self).steps@, slot, v),
            final(self).datas == old(self).datas,
            final(self).infer_target == old(self).infer_target,
            final(self).snap == old(self).snap,
            final(self).next_step_id == old(self).next_step_id,
            final(self).next_data_id == old(self).next_data_id,
    {
        match find_step(&self.steps, slot.step) {
            None => false,
            Some(i) => {
                if !has_point(&self.steps[i].data, slot.role) {
                    return false;
                }
                let st = self.steps.remove(i);
                let Step { id, data } = st;
                let nd = replace_point_in(data, slot.role, v);
                self.steps.insert(i, Step { id, data: nd });
                proof {
                    let s0 = old(self).steps@;
                    let st1 = Step { id, data: nd };
                    assert(self.steps@ =~= s0.update(i as int, st1));
                    lemma_replace_step(s0, i as int, st1, self.next_step_id);
                }
                true
            },
        }
    }

    /// Sets a number slot to `v`. Returns whether the slot exists; when it does
    /// not, nothing changes. The snap index stays valid without recomputation.
    pub fn set_number(&mut self, slot: NumberSlot, v: ResolvableTo<i64>) -> (r: bool)
        requires
            old(self).wf(),
        ensures
            final(self).wf(),
            r == number_slot_value(old(self).steps@, old(self).datas@, slot) is Some,
            final(self).steps@ == steps_with_number_slot(old(self).steps@, old(self).datas@, slot, v),
            final(self).datas@ == datas_with_number_slot(old(self).datas@, slot, v),
            final(self).infer_target == old(self).infer_target,
            final(self).snap == old(self).snap,
            final(self).next_step_id == old(self).next_step_id,
            final(self).next_data_id == old(self).next_data_id,
    {
        match slot {
            NumberSlot::Step { point, axis } => match find_step(&self.steps, point.step) {
                None => false,
                Some(i) => {
                    if !has_literal_point(&self.steps[i].data, point.role) {
                        return false;
                    }
                    let st = self.steps.remove(i);
                    let Step { id, data } = st;
                    let nd = set_coord_in(data, point.role, axis, v);
                    self.steps.insert(i, Step { id, data: nd });
                    proof {
                        let s0 = old(self).steps@;
                        let st1 = Step { id, data: nd };
                        assert(self.steps@ =~= s0.update(i as int, st1));
                        lemma_replace_step(s0, i as int, st1, self.next_step_id);
                    }
                    true
                },
            },
            NumberSlot::Data { data, axis } => match find_data(&self.datas, data) {
                None => false,
                Some(i) => {
                    if !matches!(self.datas[i].data, DataData::Point(_)) {
                        return false;
                    }
                    let d = self.datas.remove(i);
                    let Data { id, data: dd } = d;
                    let nd = match dd {
                        DataData::Point(ps) => DataData::Point(with_coord_in(ps, axis, v)),
                        DataData::Number(n) => DataData::Number(n),
                    };
                    self.datas.insert(i, Data { id, data: nd });
                    proof {
                        let s0 = old(self).datas@;
                        let d1 = Data { id, data: nd };
                        assert(self.datas@ =~= s0.update(i as int, d1));
                        let t = self.datas@;
                        assert forall|a: int, b: int| 0 <= a < b < t.len() implies #[trigger] t[a].id
                            != #[trigger] t[b].id by {
                            assert(s0[a].id != s0[b].id);
                        }
                        assert forall|k: int| 0 <= k < t.len() implies #[trigger] t[k].id
                            < self.next_data_id by {
                            assert(s0[k].id < self.next_data_id);
                        }
                    }
                    true
                },
            },
        }
    }

    /// Sets the number that a number datum holds. Returns whether a number
    /// datum with that id exists; when none does, nothing changes.
    pub fn set_data_number(&mut self, id: usize, n: i64) -> (r: bool)
        requires
            old(self).wf(),
        ensures
            final(self).wf(),
            r == (data_index(old(self).datas@, id) matches Some(i) && old(self).datas@[i].data is Number),
            r ==> final(self).datas@ == old(self).datas@.update(
                data_index(old(self).datas@, id)->Some_0,
                Data { id, data: DataData::Number(n) },
            ),
            !r ==> final(self).datas == old(self).datas,
            final(self).steps == old(self).steps,
            final(self).snap == old(self).snap,
            final(self).infer_target == old(self).infer_target,
            final(self).next_step_id == old(self).next_step_id,
            final(self).next_data_id == old(self).next_data_id,
    {
        match find_data(&self.datas, id) {
            None => false,
            Some(i) => {
                if !matches!(self.datas[i].data, DataData::Number(_)) {
                    return false;
                }
                self.datas.set(i, Data { id, data: DataData::Number(n) });
                proof {
                    let s0 = old(self).datas@;
                    let t = self.datas@;
                    assert forall|a: int, b: int| 0 <= a < b < t.len() implies #[trigger] t[a].id
                        != #[trigger] t[b].id by {
                        assert(s0[a].id != s0[b].id);
                    }
                    assert forall|k: int| 0 <= k < t.len() implies #[trigger] t[k].id
                        < self.next_data_id by {
                        assert(s0[k].id < self.next_data_id);
                    }
                }
                true
            },
        }
    }

    /// Appends a step with the next step id, and its anchors to the snap
    /// index. Returns the id, or `None`, changing nothing, when ids are exhausted.
    pub fn add_step(&mut self, data: StepData) -> (r: Option<usize>)
        requires
            old(self).wf(),
        ensures
            final(self).wf(),
            old(self).next_step_id == usize::MAX ==> r is None && final(self).steps == old(self).steps,
            old(self).next_step_id < usize::MAX ==> r == Some(old(self).next_step_id)
                && final(self).steps@ == old(self).steps@.push(
                Step { id: old(self).next_step_id, data },
            ),
            final(self).datas == old(self).datas,
            final(self).infer_target == old(self).infer_target,
            final(self).next_data_id == old(self).next_data_id,
    {
        if self.next_step_id == usize::MAX {
            return None;
        }
        let id = self.next_step_id;
        let st = Step { id, data };
        let mut pts = st.snap_points();
        let ghost old_snap = self.snap@;
        let ghost new_pts = pts@;
        self.snap.append(&mut pts);
        self.steps.push(st);
        self.next_step_id = id + 1;
        proof {
            let s0 = old(self).steps@;
            assert(self.steps@.drop_last() =~= s0);
            assert(paths_of(self.snap@) =~= paths_of(old_snap) + paths_of(new_pts));
            let t = self.steps@;
            assert forall|a: int, b: int| 0 <= a < b < t.len() implies #[trigger] t[a].id
                != #[trigger] t[b].id by {
                if b < s0.len() {
                    assert(s0[a].id != s0[b].id);
                } else {
                    assert(s0[a].id < id);
                }
            }
            assert forall|k: int| 0 <= k < t.len() implies #[trigger] t[k].id < self.next_step_id by {
                if k < s0.len() {
                    assert(s0[k].id < id);
                }
            }
        }
        Some(id)
    }

    /// Appends a datum with the next data id. Returns the id, or `None`,
    /// changing nothing, when ids are exhausted. Steps and the snap index stay
    /// as they are.
    pub fn add_data(&mut self, data: DataData) -> (r: Option<usize>)
        requires
            old(self).wf(),
        ensures
            final(self).wf(),
            old(self).next_data_id == usize::MAX ==> r is None && final(self).datas == old(self).datas,
            old(self).next_data_id < usize::MAX ==> r == Some(old(self).next_data_id)
                && final(self).datas@ == old(self).datas@.push(
                Data { id: old(self).next_data_id, data },
            ),
            final(self).steps == old(self).steps,
            final(self).snap == old(self).snap,
            final(self).infer_target == old(self).infer_target,
            final(self).next_step_id == old(self).next_step_id,
    {
        if self.next_data_id == usize::MAX {
            return None;
        }
        let id = self.next_data_id;
        self.datas.push(Data { id, data });
        self.next_data_id = id + 1;
        proof {
            let s0 = old(self).datas@;
            let t = self.datas@;
            assert forall|a: int, b: int| 0 <= a < b < t.len() implies #[trigger] t[a].id
                != #[trigger] t[b].id by {
                if b < s0.len() {
                    assert(s0[a].id != s0[b].id);
                } else {
                    assert(s0[a].id < id);
                }
            }
            assert forall|k: int| 0 <= k < t.len() implies #[trigger] t[k].id < self.next_data_id by {
                if k < s0.len() {
                    assert(s0[k].id < id);
                }
            }
        }
        Some(id)
    }

    /// Removes the step with id `id`, if any, and recomputes the snap index.
    /// References to it are left as they are: they fail when resolved.
    pub fn remove_step(&mut self, id: usize) -> (r: bool)
        requires
            old(self).wf(),
        ensures
            final(self).wf(),
            r == step_index(old(self).steps@, id) is Some,
            match step_index(old(self).steps@, id) {
                Some(i) => final(self).steps@ == old(self).steps@.remove(i),
                None => final(self).steps@ == old(self).steps@,
            },
            forall|k: int| 0 <= k < final(self).steps@.len() ==> #[trigger] final(self).steps@[k].id != id,
            final(self).datas == old(self).datas,
            final(self).infer_target == old(self).infer_target,
            final(self).next_step_id == old(self).next_step_id,
            final(self).next_data_id == old(self).next_data_id,
    {
        proof {
            lemma_step_index_from(self.steps@, id, 0);
        }
        match find_step(&self.steps, id) {
            None => false,
            Some(i) => {
                self.steps.remove(i);
                self.snap = snap_index(&self.steps);
                proof {
                    let s0 = old(self).steps@;
                    let t = self.steps@;
                    assert forall|a: int, b: int| 0 <= a < b < t.len() implies #[trigger] t[a].id
                        != #[trigger] t[b].id by {
                        if b < i {
                            assert(s0[a].id != s0[b].id);
                        } else if a < i {
                            assert(t[b] == s0[b + 1]);
                            assert(s0[a].id != s0[b + 1].id);
                        } else {
                            assert(s0[a + 1].id != s0[b + 1].id);
                        }
                    }
                    assert forall|k: int| 0 <= k < t.len() implies #[trigger] t[k].id != id
                        && t[k].id < self.next_step_id by {
                        if k < i {
                            assert(s0[k].id < self.next_step_id);
                            assert(s0[k].id != s0[i as int].id);
                        } else {
                            assert(s0[k + 1].id < self.next_step_id);
                            assert(s0[k + 1].id != s0[i as int].id);
                        }
                    }
                }
                true
            },
        }
    }

    /// Removes the datum with id `id`, if any. Steps and the snap index stay
    /// as they are.
    pub fn remove_data(&mut self, id: usize) -> (r: bool)
        requires
            old(self).wf(),
        ensures
            final(self).wf(),
            r == data_index(old(self).datas@, id) is Some,
            match data_index(old(self).datas@, id) {
                Some(i) => final(self).datas@ == old(self).datas@.remove(i),
                None => final(self).datas@ == old(self).datas@,
            },
            forall|k: int| 0 <= k < final(self).datas@.len() ==> #[trigger] final(self).datas@[k].id != id,
            final(self).steps == old(self).steps,
            final(self).snap == old(self).snap,
            final(self).infer_target == old(self).infer_target,
            final(self).next_step_id == old(self).next_step_id,
            final(self).next_data_id == old(self).next_data_id,
    {
        proof {
            lemma_data_index_from(self.datas@, id, 0);
        }
        match find_data(&self.datas, id) {
            None => false,
            Some(i) => {
                self.datas.remove(i);
                proof {
                    let s0 = old(self).datas@;
                    let t = self.datas@;
                    assert forall|a: int, b: int| 0 <= a < b < t.len() implies #[trigger] t[a].id
                        != #[trigger] t[b].id by {
                        if b < i {
                            assert(s0[a].id != s0[b].id);
                        } else if a < i {
                            assert(s0[a].id != s0[b + 1].id);
                        } else {
                            assert(s0[a + 1].id != s0[b + 1].id);
                        }
                    }
                    assert forall|k: int| 0 <= k < t.len() implies #[trigger] t[k].id != id
                        && t[k].id < self.next_data_id by {
                        if k < i {
                            assert(s0[k].id < self.next_data_id);
                            assert(s0[k].id != s0[i as int].id);
                        } else {
                            assert(s0[k + 1].id < self.next_data_id);
                            assert(s0[k + 1].id != s0[i as int].id);
                        }
                    }
                }
                true
            },
        }
    }
}

/// The snap-point index of `steps`: every step's anchors, in step order.
pub fn snap_index(steps: &Vec<Step>) -> (r: Vec<DataRef>)
    ensures
        paths_of(r@) == snap_index_spec(steps@),
{
    let mut r: Vec<DataRef> = Vec::new();
    let mut i: usize = 0;
    while i < steps.len()
        invariant
            i <= steps@.len(),
            paths_of(r@) == snap_index_spec(steps@.subrange(0, i as int)),
        decreases steps@.len() - i,
    {
        let mut pts = steps[i].snap_points();
        let ghost r0 = r@;
        let ghost p0 = pts@;
        r.append(&mut pts);
        proof {
            let sub = steps@.subrange(0, i + 1);
            assert(sub.drop_last() =~= steps@.subrange(0, i as int));
            assert(paths_of(r@) =~= paths_of(r0) + paths_of(p0));
        }
        i += 1;
    }
    assert(steps@.subrange(0, steps@.len() as int) =~= steps@);
    r
}

/// The anchor at position `k` of the snap index of `steps` resolves to a point
/// within the hit threshold of the cursor.
pub open spec fn anchor_hit(steps: Seq<Step>, datas: Seq<Data>, cursor: Point, k: int) -> bool {
    let snap = snap_index_spec(steps);
    &&& 0 <= k < snap.len()
    &&& point_at(steps, datas, snap[k], MAX_REF_DEPTH as nat) is Ok
    &&& within_threshold(point_at(steps, datas, snap[k], MAX_REF_DEPTH as nat)->Ok_0, cursor)
}

/// The squared distance from the cursor to the anchor at position `k`.
pub open spec fn anchor_dist(steps: Seq<Step>, datas: Seq<Data>, cursor: Point, k: int) -> int {
    dist_sq(point_at(steps, datas, snap_index_spec(steps)[k], MAX_REF_DEPTH as nat)->Ok_0, cursor)
}

/// The anchor at position `k` is hit, and no hit anchor is nearer; among
/// equally near ones it comes first.
pub open spec fn is_nearest(steps: Seq<Step>, datas: Seq<Data>, cursor: Point, k: int) -> bool {
    &&& anchor_hit(steps, datas, cursor, k)
    &&& forall|j: int| #[trigger]
        anchor_hit(steps, datas, cursor, j) ==> anchor_dist(steps, datas, cursor, k) < anchor_dist(
            steps,
            datas,
            cursor,
            j,
        ) || (anchor_dist(steps, datas, cursor, k) == anchor_dist(steps, datas, cursor, j) && k <= j)
}

/// The hover candidate at the cursor: a reference to the nearest hit anchor,
/// or, when none is hit, a free literal point at the cursor.
pub open spec fn is_candidate(
    c: ResolvableTo<PointSignal>,
    steps: Seq<Step>,
    datas: Seq<Data>,
    cursor: Point,
) -> bool {
    if exists|k: int| anchor_hit(steps, datas, cursor, k) {
        exists|k: int|
            is_nearest(steps, datas, cursor, k) && c is Ref && (c->Ref_0)@ == snap_index_spec(steps)[k]
    } else {
        c == literal_point_spec(cursor)
    }
}

impl Session {
    /// The position in the snap index of the nearest anchor within the hit
    /// threshold of the cursor, if any.
    pub fn hover_index(&self, cursor: Point) -> (r: Option<usize>)
        requires
            self.wf(),
        ensures
            r is None ==> forall|k: int| !anchor_hit(self.steps@, self.datas@, cursor, k),
            r matches Some(k) ==> is_nearest(self.steps@, self.datas@, cursor, k as int),
    {
        let ghost steps = self.steps@;
        let ghost datas = self.datas@;
        let mut best: Option<usize> = None;
        let mut best_d: u64 = 0;
        let mut k: usize = 0;
        while k < self.snap.len()
            invariant
                self.wf(),
                steps == self.steps@,
                datas == self.datas@,
                k <= self.snap@.len(),
                best is None ==> forall|j: int| 0 <= j < k ==> !anchor_hit(steps, datas, cursor, j),
                best matches Some(b) ==> {
                    &&& b < k
                    &&& anchor_hit(steps, datas, cursor, b as int)
                    &&& best_d == anchor_dist(steps, datas, cursor, b as int)
                    &&& forall|j: int|
                        0 <= j < k && #[trigger] anchor_hit(steps, datas, cursor, j) ==> best_d
                            < anchor_dist(steps, datas, cursor, j) || (best_d == anchor_dist(
                            steps,
                            datas,
                            cursor,
                            j,
                        ) && b <= j)
                },
            decreases self.snap@.len() - k,
        {
            proof {
                assert(paths_of(self.snap@)[k as int] == self.snap@[k as int]@);
            }
            match self.snap[k].resolve_point(&self.steps, &self.datas) {
                Ok(q) => match near_dist_sq(q, cursor) {
                    Some(d) => {
                        if d < (HIT_THRESHOLD * HIT_THRESHOLD) as u64 {
                            match best {
                                None => {
                                    best = Some(k);
                                    best_d = d;
                                },
                                Some(_) => {
                                    if d < best_d {
                                        best = Some(k);
                                        best_d = d;
                                    }
                                },
                            }
                        }
                    },
                    None => {},
                },
                Err(_) => {},
            }
            k += 1;
        }
        proof {
            let snap = snap_index_spec(steps);
            assert(snap.len() == self.snap@.len());
        }
        best
    }

    /// The hover candidate at the cursor (see `is_candidate`).
    pub fn hover_candidate(&self, cursor: Point) -> (c: ResolvableTo<PointSignal>)
        requires
            self.wf(),
        ensures
            is_candidate(c, self.steps@, self.datas@, cursor),
    {
        match self.hover_index(cursor) {
            Some(k) => {
                proof {
                    assert(paths_of(self.snap@)[k as int] == self.snap@[k as int]@);
                }
                let c = ResolvableTo::Ref(self.snap[k].clone());
                assert(anchor_hit(self.steps@, self.datas@, cursor, k as int));
                c
            },
            None => literal_point(cursor),
        }
    }

    /// A pointer-down at the cursor. While armed on a point slot, it writes the
    /// hover candidate into the slot and returns to idle, returning whether the
    /// slot exists. Otherwise nothing changes and it returns false.
    pub fn pointer_down(&mut self, cursor: Point) -> (r: bool)
        requires
            old(self).wf(),
        ensures
            final(self).wf(),
            final(self).datas == old(self).datas,
            final(self).snap == old(self).snap,
            match old(self).infer_target {
                Some(InferTarget::Point(slot)) => {
                    &&& final(self).infer_target is None
                    &&& r == point_slot_value(old(self).steps@, slot) is Some
                    &&& exists|c: ResolvableTo<PointSignal>|
                        is_candidate(c, old(self).steps@, old(self).datas@, cursor)
                            && final(self).steps@ == with_point_slot(old(self).steps@, slot, c)
                },
                _ => !r && final(self).steps == old(self).steps && final(self).infer_target
                    == old(self).infer_target,
            },
    {
        match self.infer_target {
            Some(InferTarget::Point(slot)) => {
                let c = self.hover_candidate(cursor);
                let ghost gc = c;
                let r = self.set_point(slot, c);
                self.infer_target = None;
                assert(is_candidate(gc, old(self).steps@, old(self).datas@, cursor)
                    && self.steps@ == with_point_slot(old(self).steps@, slot, gc));
                r
            },
            _ => false,
        }
    }

    /// While armed on a number slot, binds it to a reference to the number that
    /// `source` holds and returns to idle, returning whether the armed slot
    /// exists. Otherwise nothing changes and it returns false.
    pub fn bind_number(&mut self, source: NumberSlot) -> (r: bool)
        requires
            old(self).wf(),
        ensures
            final(self).wf(),
            final(self).snap == old(self).snap,
            match old(self).infer_target {
                Some(InferTarget::Number(slot)) => {
                    &&& final(self).infer_target is None
                    &&& r == number_slot_value(old(self).steps@, old(self).datas@, slot) is Some
                    &&& exists|d: DataRef|
                        d@ == number_slot_path(source) && final(self).steps@ == steps_with_number_slot(
                            old(self).steps@,
                            old(self).datas@,
                            slot,
                            ResolvableTo::Ref(d),
                        ) && final(self).datas@ == datas_with_number_slot(
                            old(self).datas@,
                            slot,
                            ResolvableTo::Ref(d),
                        )
                },
                _ => !r && final(self).steps == old(self).steps && final(self).datas == old(
                    self,
                ).datas && final(self).infer_target == old(self).infer_target,
            },
    {
        match self.infer_target {
            Some(InferTarget::Number(slot)) => {
                let d = source.path();
                let ghost gd = d;
                let r = self.set_number(slot, ResolvableTo::Ref(d));
                self.infer_target = None;
                assert(gd@ == number_slot_path(source));
                r
            },
            _ => false,
        }
    }
}

} // verus!

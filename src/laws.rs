use vstd::prelude::*;
use crate::geom::{Point, mean, mid_spec};
use crate::model::{Data, PointSignal, ResolvableTo, Step, StepData, anchor_path, anchors_of, literal_point_spec};
use crate::path::Prop;
use crate::render::{DrawCommand, step_command};
use crate::resolve::{
    MAX_REF_DEPTH, ResolveError, lemma_step_index_from, point_at, resolvable_point_at, step_index,
};
use crate::session::{
    InferTarget, PointRole, PointSlot, Session, anchor_dist, anchor_hit, is_candidate,
    is_nearest, lemma_same_ids_same_index, point_slot_path, point_slot_value,
    snap_index_spec, with_point_slot,
};

verus! {

/// Setting a point slot changes only that slot: ids, positions and every
/// other step's slots stay as they were.
pub proof fn lemma_with_point_slot(steps: Seq<Step>, slot: PointSlot, v: ResolvableTo<PointSignal>)
    requires
        point_slot_value(steps, slot) is Some,
    ensures
        point_slot_value(with_point_slot(steps, slot, v), slot) == Some(v),
        with_point_slot(steps, slot, v).len() == steps.len(),
        forall|id: usize| step_index(with_point_slot(steps, slot, v), id) == step_index(steps, id),
        forall|other: PointSlot|
            other.step != slot.step ==> point_slot_value(with_point_slot(steps, slot, v), other)
                == point_slot_value(steps, other),
{
    let t = with_point_slot(steps, slot, v);
    let i = step_index(steps, slot.step)->Some_0;
    lemma_step_index_from(steps, slot.step, 0);
    assert forall|id: usize| step_index(t, id) == step_index(steps, id) by {
        assert forall|k: int| 0 <= k < t.len() implies #[trigger] t[k].id == steps[k].id by {}
        lemma_same_ids_same_index(t, steps, id, 0);
    }
    assert forall|other: PointSlot| other.step != slot.step implies point_slot_value(t, other)
        == point_slot_value(steps, other) by {
        lemma_step_index_from(steps, other.step, 0);
    }
}

/// Setting a slot to a literal point and then resolving the slot's path gives
/// exactly that point.
pub proof fn lemma_literal_round_trip(steps: Seq<Step>, datas: Seq<Data>, slot: PointSlot, p: Point)
    requires
        point_slot_value(steps, slot) is Some,
    ensures
        point_at(
            with_point_slot(steps, slot, literal_point_spec(p)),
            datas,
            point_slot_path(slot),
            MAX_REF_DEPTH as nat,
        ) == Ok::<Point, ResolveError>(p),
{
    let t = with_point_slot(steps, slot, literal_point_spec(p));
    lemma_with_point_slot(steps, slot, literal_point_spec(p));
    let i = step_index(t, slot.step)->Some_0;
    lemma_step_index_from(t, slot.step, 0);
    let path = point_slot_path(slot);
    assert(path[2] is PropName);
    assert(resolvable_point_at(t, datas, literal_point_spec(p), MAX_REF_DEPTH as nat) == Ok::<
        Point,
        ResolveError,
    >(p));
}

/// A point step that references a line's `end` resolves to that endpoint: with
/// the end a literal, to the literal; after the end is set to another literal,
/// to the new one, while the point step's own slot is unchanged.
pub proof fn lemma_reference_transitive(
    steps: Seq<Step>,
    datas: Seq<Data>,
    a: usize,
    b: usize,
    e1: Point,
    e2: Point,
)
    requires
        step_index(steps, a) matches Some(ia) && steps[ia].data matches StepData::DrawPoint(
            ResolvableTo::Ref(r),
        ) && r@ == anchor_path(b, Prop::End),
        step_index(steps, b) matches Some(ib) && steps[ib].data matches StepData::DrawLine {
            start,
            end,
        } && end == literal_point_spec(e1),
    ensures
        point_at(steps, datas, anchor_path(a, Prop::Own), MAX_REF_DEPTH as nat) == Ok::<
            Point,
            ResolveError,
        >(e1),
        ({
            let end_slot = PointSlot { step: b, role: PointRole::End };
            let own_slot = PointSlot { step: a, role: PointRole::Own };
            let t = with_point_slot(steps, end_slot, literal_point_spec(e2));
            &&& point_at(t, datas, anchor_path(a, Prop::Own), MAX_REF_DEPTH as nat) == Ok::<
                Point,
                ResolveError,
            >(e2)
            &&& point_slot_value(t, own_slot) == point_slot_value(steps, own_slot)
        }),
{
    lemma_step_index_from(steps, a, 0);
    lemma_step_index_from(steps, b, 0);
    let ia = step_index(steps, a)->Some_0;
    let ib = step_index(steps, b)->Some_0;
    let r = steps[ia].data->DrawPoint_0->Ref_0;
    let fuel = (MAX_REF_DEPTH - 1) as nat;
    assert(anchor_path(b, Prop::End)[2] is PropName);
    assert(anchor_path(a, Prop::Own)[2] is PropName);
    assert(resolvable_point_at(steps, datas, literal_point_spec(e1), fuel) == Ok::<
        Point,
        ResolveError,
    >(e1));
    assert(point_at(steps, datas, r@, fuel) == Ok::<Point, ResolveError>(e1));
    let end_slot = PointSlot { step: b, role: PointRole::End };
    let own_slot = PointSlot { step: a, role: PointRole::Own };
    let t = with_point_slot(steps, end_slot, literal_point_spec(e2));
    lemma_with_point_slot(steps, end_slot, literal_point_spec(e2));
    assert(a != b);
    lemma_step_index_from(t, a, 0);
    lemma_step_index_from(t, b, 0);
    assert(t[ia] == steps[ia]);
    assert(resolvable_point_at(t, datas, literal_point_spec(e2), fuel) == Ok::<
        Point,
        ResolveError,
    >(e2));
    assert(point_at(t, datas, r@, fuel) == Ok::<Point, ResolveError>(e2));
}

/// A line's `mid` anchor resolves to the componentwise mean of its endpoints,
/// which is exact when the endpoint coordinates sum to even numbers.
pub proof fn lemma_midpoint(steps: Seq<Step>, datas: Seq<Data>, id: usize, a: Point, b: Point)
    requires
        step_index(steps, id) matches Some(i) && steps[i].data == (StepData::DrawLine {
            start: literal_point_spec(a),
            end: literal_point_spec(b),
        }),
    ensures
        point_at(steps, datas, anchor_path(id, Prop::Mid), MAX_REF_DEPTH as nat) == Ok::<
            Point,
            ResolveError,
        >(mid_spec(a, b)),
        (a.x + b.x) % 2 == 0 ==> 2 * mid_spec(a, b).x == a.x + b.x,
        (a.y + b.y) % 2 == 0 ==> 2 * mid_spec(a, b).y == a.y + b.y,
{
    lemma_step_index_from(steps, id, 0);
    assert(anchor_path(id, Prop::Mid)[2] is PropName);
    let fuel = MAX_REF_DEPTH as nat;
    assert(resolvable_point_at(steps, datas, literal_point_spec(a), fuel) == Ok::<Point, ResolveError>(a));
    assert(resolvable_point_at(steps, datas, literal_point_spec(b), fuel) == Ok::<Point, ResolveError>(b));
    assert(mean(a.x as int, b.x as int) == (a.x + b.x) / 2);
}

/// Once no step has id `b`, a point step that references `step[b].end` fails
/// to resolve with `UnknownId`, and the redraw shows an error indicator for it
/// in place of its shape.
pub proof fn lemma_dangling_reference(steps: Seq<Step>, datas: Seq<Data>, a: usize, b: usize)
    requires
        forall|k: int| 0 <= k < steps.len() ==> #[trigger] steps[k].id != b,
        step_index(steps, a) matches Some(ia) && steps[ia].data matches StepData::DrawPoint(
            ResolvableTo::Ref(r),
        ) && r@ == anchor_path(b, Prop::End),
    ensures
        ({
            let ia = step_index(steps, a)->Some_0;
            &&& resolvable_point_at(
                steps,
                datas,
                steps[ia].data->DrawPoint_0,
                MAX_REF_DEPTH as nat,
            ) == Err::<Point, ResolveError>(ResolveError::UnknownId)
            &&& step_command(steps, datas, steps[ia]) == (DrawCommand::Unresolved {
                step: a,
                error: ResolveError::UnknownId,
            })
        }),
{
    lemma_step_index_from(steps, a, 0);
    lemma_step_index_from(steps, b, 0);
    assert(anchor_path(b, Prop::End)[2] is PropName);
}

/// Appending a step appends its anchors to the snap index: one for a point
/// step, three for a line step.
pub proof fn lemma_snap_index_append(steps: Seq<Step>, st: Step)
    ensures
        snap_index_spec(steps.push(st)) == snap_index_spec(steps) + anchors_of(st.id, st.data),
        st.data is DrawPoint ==> snap_index_spec(steps.push(st)).len() == snap_index_spec(steps).len() + 1,
        st.data is DrawLine ==> snap_index_spec(steps.push(st)).len() == snap_index_spec(steps).len() + 3,
{
    assert(steps.push(st).drop_last() =~= steps);
}

/// Committing the hover candidate into a point slot, with the cursor nearer to
/// `step[b].mid` than to any other anchor and within the hit threshold of it,
/// binds the slot to a reference to `step[b].mid`.
pub proof fn lemma_infer_commit(
    steps: Seq<Step>,
    datas: Seq<Data>,
    slot: PointSlot,
    b: usize,
    cursor: Point,
    k: int,
    c: ResolvableTo<PointSignal>,
)
    requires
        point_slot_value(steps, slot) is Some,
        snap_index_spec(steps)[k] == anchor_path(b, Prop::Mid),
        anchor_hit(steps, datas, cursor, k),
        forall|j: int|
            j != k && #[trigger] anchor_hit(steps, datas, cursor, j) ==> anchor_dist(
                steps,
                datas,
                cursor,
                k,
            ) < anchor_dist(steps, datas, cursor, j),
        is_candidate(c, steps, datas, cursor),
    ensures
        point_slot_value(with_point_slot(steps, slot, c), slot) matches Some(ResolvableTo::Ref(r))
            && r@ == anchor_path(b, Prop::Mid),
{
    let kk = choose|kk: int|
        is_nearest(steps, datas, cursor, kk) && c is Ref && (c->Ref_0)@ == snap_index_spec(steps)[kk];
    if kk != k {
        assert(anchor_hit(steps, datas, cursor, kk));
        assert(anchor_dist(steps, datas, cursor, k) < anchor_dist(steps, datas, cursor, kk));
    }
    lemma_with_point_slot(steps, slot, c);
}

/// Arming an infer gesture and then cancelling it leaves every step and datum
/// as it was: `s1` is `s0` after `arm_infer`, `s2` is `s1` after `cancel_infer`.
pub proof fn lemma_cancel_keeps_slots(s0: Session, s1: Session, s2: Session, target: InferTarget)
    requires
        s1.infer_target == Some(target),
        s1.steps == s0.steps,
        s1.datas == s0.datas,
        s2.infer_target is None,
        s2.steps == s1.steps,
        s2.datas == s1.datas,
    ensures
        s2.steps == s0.steps,
        s2.datas == s0.datas,
        s2.infer_target is None,
{
}

} // verus!

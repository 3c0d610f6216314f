use drawling::geom::{mean_coord, midpoint, near_dist_sq};
use drawling::model::literal_point;
use drawling::session::snap_index;
use drawling::{
    Axis, DataData, DataRef, DataRefPathEl, DrawCommand, InferTarget, NumberSlot, Point, PointRole,
    PointSignal, PointSlot, Prop, ResolvableTo, ResolveError, Session, StepData,
};

fn pt(x: i64, y: i64) -> Point {
    Point { x, y }
}

fn line(a: Point, b: Point) -> StepData {
    StepData::DrawLine { start: literal_point(a), end: literal_point(b) }
}

fn point_step(p: Point) -> StepData {
    StepData::DrawPoint(literal_point(p))
}

fn resolve_slot(s: &Session, slot: PointSlot) -> Result<Point, ResolveError> {
    slot.path().resolve_point(&s.steps, &s.datas)
}

fn own(step: usize) -> PointSlot {
    PointSlot { step, role: PointRole::Own }
}

fn stored_point(s: &Session, id: usize) -> ResolvableTo<PointSignal> {
    let st = s.steps.iter().find(|st| st.id == id).unwrap();
    match &st.data {
        StepData::DrawPoint(p) => p.clone(),
        StepData::DrawLine { .. } => panic!("not a point step"),
    }
}

#[test]
fn literal_round_trip() {
    let mut s = Session::new();
    let id = s.add_step(point_step(pt(0, 0))).unwrap();
    assert!(s.set_point(own(id), literal_point(pt(7, -3))));
    assert_eq!(resolve_slot(&s, own(id)), Ok(pt(7, -3)));
    assert_eq!(stored_point(&s, id).resolve(&s.steps, &s.datas), Ok(pt(7, -3)));
}

#[test]
fn reference_transitivity() {
    let mut s = Session::new();
    let b = s.add_step(line(pt(0, 0), pt(10, 0))).unwrap();
    let a = s.add_step(point_step(pt(0, 0))).unwrap();
    let end = PointSlot { step: b, role: PointRole::End };
    assert!(s.set_point(own(a), ResolvableTo::Ref(end.path())));
    assert_eq!(resolve_slot(&s, own(a)), Ok(pt(10, 0)));
    let stored = stored_point(&s, a);
    assert!(s.set_point(end, literal_point(pt(20, 0))));
    assert_eq!(resolve_slot(&s, own(a)), Ok(pt(20, 0)));
    assert_eq!(stored_point(&s, a), stored);
}

#[test]
fn midpoint_of_literal_line() {
    let mut s = Session::new();
    let b = s.add_step(line(pt(0, 0), pt(4, 2))).unwrap();
    let mid = DataRef::step_anchor(b, Prop::Mid);
    assert_eq!(mid.resolve_point(&s.steps, &s.datas), Ok(pt(2, 1)));
}

#[test]
fn midpoint_rounds_down() {
    let mut s = Session::new();
    let b = s.add_step(line(pt(-1, 3), pt(0, 6))).unwrap();
    let mid = DataRef::step_anchor(b, Prop::Mid);
    assert_eq!(mid.resolve_point(&s.steps, &s.datas), Ok(pt(-1, 4)));
}

#[test]
fn midpoint_of_extreme_coordinates() {
    let mut s = Session::new();
    let b = s.add_step(line(pt(i64::MAX, i64::MIN), pt(i64::MAX, i64::MIN))).unwrap();
    let mid = DataRef::step_anchor(b, Prop::Mid);
    assert_eq!(mid.resolve_point(&s.steps, &s.datas), Ok(pt(i64::MAX, i64::MIN)));
}

#[test]
fn dangling_reference_recovery() {
    let mut s = Session::new();
    let b = s.add_step(line(pt(0, 0), pt(10, 0))).unwrap();
    let a = s.add_step(point_step(pt(0, 0))).unwrap();
    let c = s.add_step(point_step(pt(3, 4))).unwrap();
    let end = PointSlot { step: b, role: PointRole::End };
    assert!(s.set_point(own(a), ResolvableTo::Ref(end.path())));
    assert!(s.remove_step(b));
    assert_eq!(resolve_slot(&s, own(a)), Err(ResolveError::UnknownId));
    let cmds = s.render(pt(0, 0));
    assert_eq!(cmds[0], DrawCommand::Unresolved { step: a, error: ResolveError::UnknownId });
    assert_eq!(cmds[1], DrawCommand::Point { at: pt(3, 4) });
    assert_eq!(cmds[2], DrawCommand::SnapMarker { at: pt(3, 4), highlighted: false });
    assert_eq!(cmds.len(), 3);
    assert_eq!(s.steps.len(), 2);
    assert_eq!(s.steps[1].id, c);
}

#[test]
fn snap_index_stability() {
    let mut s = Session::new();
    s.add_step(point_step(pt(1, 1))).unwrap();
    let before = s.snap.clone();
    s.add_data(DataData::Number(5)).unwrap();
    s.add_data(DataData::Point(PointSignal { x: ResolvableTo::T(1), y: ResolvableTo::T(2) }))
        .unwrap();
    assert_eq!(s.snap, before);
    s.add_step(line(pt(0, 0), pt(2, 2))).unwrap();
    assert_eq!(s.snap.len(), before.len() + 3);
    s.add_step(point_step(pt(5, 5))).unwrap();
    assert_eq!(s.snap.len(), before.len() + 4);
    assert_eq!(s.snap, snap_index(&s.steps));
}

#[test]
fn snap_index_unchanged_by_value_edit() {
    let mut s = Session::new();
    let b = s.add_step(line(pt(0, 0), pt(2, 2))).unwrap();
    let before = s.snap.clone();
    assert!(s.set_point(PointSlot { step: b, role: PointRole::Start }, literal_point(pt(9, 9))));
    assert_eq!(s.snap, before);
}

#[test]
fn snap_points_of_steps() {
    let mut s = Session::new();
    s.add_step(point_step(pt(1, 1))).unwrap();
    s.add_step(line(pt(0, 0), pt(2, 2))).unwrap();
    let p: Vec<String> = s.steps[0].snap_points().iter().map(|d| d.desc()).collect();
    assert_eq!(p, vec!["step[0].self".to_string()]);
    let l: Vec<String> = s.steps[1].snap_points().iter().map(|d| d.desc()).collect();
    assert_eq!(l, vec!["step[1].start", "step[1].mid", "step[1].end"]);
}

#[test]
fn infer_commit_binds_to_mid() {
    let mut s = Session::new();
    let b = s.add_step(line(pt(0, 0), pt(4, 2))).unwrap();
    let c = s.add_step(point_step(pt(20, 20))).unwrap();
    s.arm_infer(InferTarget::Point(own(c)));
    assert!(s.pointer_down(pt(2, 2)));
    assert_eq!(s.infer_target, None);
    match stored_point(&s, c) {
        ResolvableTo::Ref(r) => assert_eq!(r.desc(), DataRef::step_anchor(b, Prop::Mid).desc()),
        ResolvableTo::T(_) => panic!("expected a reference"),
    }
    assert_eq!(resolve_slot(&s, own(c)), Ok(pt(2, 1)));
}

#[test]
fn infer_commit_free_point() {
    let mut s = Session::new();
    s.add_step(line(pt(0, 0), pt(4, 2))).unwrap();
    let c = s.add_step(point_step(pt(20, 20))).unwrap();
    s.arm_infer(InferTarget::Point(own(c)));
    assert!(s.pointer_down(pt(50, -7)));
    assert_eq!(stored_point(&s, c), literal_point(pt(50, -7)));
    assert_eq!(s.infer_target, None);
}

#[test]
fn infer_picks_nearest_anchor() {
    let mut s = Session::new();
    let b = s.add_step(line(pt(0, 0), pt(4, 0))).unwrap();
    let c = s.add_step(point_step(pt(30, 30))).unwrap();
    // start (0,0), mid (2,0), end (4,0): all within the threshold of (3,0)
    assert_eq!(s.hover_index(pt(3, 0)), Some(1));
    assert_eq!(s.hover_index(pt(4, 1)), Some(2));
    assert_eq!(s.hover_index(pt(100, 100)), None);
    // (1,0) is as near to start as to mid: the earlier anchor wins
    assert_eq!(s.hover_index(pt(1, 0)), Some(0));
    s.arm_infer(InferTarget::Point(own(c)));
    assert!(s.pointer_down(pt(4, 1)));
    match stored_point(&s, c) {
        ResolvableTo::Ref(r) => assert_eq!(r.desc(), format!("step[{}].end", b)),
        ResolvableTo::T(_) => panic!("expected a reference"),
    }
}

#[test]
fn hover_threshold_is_strict() {
    let mut s = Session::new();
    s.add_step(point_step(pt(0, 0))).unwrap();
    assert_eq!(s.hover_index(pt(5, 0)), None);
    assert_eq!(s.hover_index(pt(3, 4)), None);
    assert_eq!(s.hover_index(pt(4, 0)), Some(0));
    assert_eq!(s.hover_index(pt(3, 3)), Some(0));
}

#[test]
fn pointer_down_when_idle_changes_nothing() {
    let mut s = Session::new();
    let c = s.add_step(point_step(pt(1, 1))).unwrap();
    assert!(!s.pointer_down(pt(1, 1)));
    assert_eq!(stored_point(&s, c), literal_point(pt(1, 1)));
}

#[test]
fn infer_cancel_leaves_state_untouched() {
    let mut s = Session::new();
    let b = s.add_step(line(pt(0, 0), pt(4, 2))).unwrap();
    let c = s.add_step(point_step(pt(20, 20))).unwrap();
    let steps_before = s.steps.clone();
    let datas_before = s.datas.clone();
    s.arm_infer(InferTarget::Point(own(c)));
    s.cancel_infer();
    assert_eq!(s.infer_target, None);
    assert_eq!(s.steps, steps_before);
    assert_eq!(s.datas, datas_before);
    s.arm_infer(InferTarget::Point(PointSlot { step: b, role: PointRole::Start }));
    s.arm_infer(InferTarget::Point(own(c)));
    assert_eq!(s.infer_target, Some(InferTarget::Point(own(c))));
}

#[test]
fn desc_renders_paths() {
    let d = DataRef(vec![
        DataRefPathEl::Step,
        DataRefPathEl::WithId(12),
        DataRefPathEl::PropName(Prop::Start),
        DataRefPathEl::PropName(Prop::X),
    ]);
    assert_eq!(d.desc(), "step[12].start.x");
    let d = DataRef(vec![DataRefPathEl::Data, DataRefPathEl::WithId(0), DataRefPathEl::PropName(Prop::Y)]);
    assert_eq!(d.desc(), "data[0].y");
    assert_eq!(DataRef(vec![]).desc(), "");
    assert_eq!(DataRef::step_anchor(usize::MAX, Prop::Own).desc(), format!("step[{}].self", usize::MAX));
}

#[test]
fn slot_paths() {
    let p = PointSlot { step: 3, role: PointRole::End };
    assert_eq!(p.path().desc(), "step[3].end");
    let n = NumberSlot::Step { point: PointSlot { step: 3, role: PointRole::Start }, axis: Axis::Y };
    assert_eq!(n.path().desc(), "step[3].start.y");
    let n = NumberSlot::Step { point: own(4), axis: Axis::X };
    assert_eq!(n.path().desc(), "step[4].x");
    let n = NumberSlot::Data { data: 1, axis: Axis::Y };
    assert_eq!(n.path().desc(), "data[1].y");
}

#[test]
fn resolution_errors() {
    let mut s = Session::new();
    let p = s.add_step(point_step(pt(1, 2))).unwrap();
    let l = s.add_step(line(pt(0, 0), pt(2, 2))).unwrap();
    let short = DataRef(vec![DataRefPathEl::Step, DataRefPathEl::WithId(p)]);
    assert_eq!(short.resolve_point(&s.steps, &s.datas), Err(ResolveError::MalformedPath));
    let no_id = DataRef(vec![DataRefPathEl::Step, DataRefPathEl::Step, DataRefPathEl::PropName(Prop::Own)]);
    assert_eq!(no_id.resolve_point(&s.steps, &s.datas), Err(ResolveError::MalformedPath));
    let bad = DataRef::step_anchor(p, Prop::Mid);
    assert_eq!(bad.resolve_point(&s.steps, &s.datas), Err(ResolveError::InvalidProperty));
    let bad = DataRef::step_anchor(l, Prop::Own);
    assert_eq!(bad.resolve_point(&s.steps, &s.datas), Err(ResolveError::InvalidProperty));
    let missing = DataRef::step_anchor(99, Prop::Own);
    assert_eq!(missing.resolve_point(&s.steps, &s.datas), Err(ResolveError::UnknownId));
}

#[test]
fn reference_cycle_is_reported() {
    let mut s = Session::new();
    let a = s.add_step(point_step(pt(0, 0))).unwrap();
    assert!(s.set_point(own(a), ResolvableTo::Ref(own(a).path())));
    assert_eq!(resolve_slot(&s, own(a)), Err(ResolveError::UnresolvedCycle));
    let cmds = s.render(pt(0, 0));
    assert_eq!(cmds[0], DrawCommand::Unresolved { step: a, error: ResolveError::UnresolvedCycle });
    assert_eq!(cmds.len(), 1);
}

#[test]
fn number_paths_resolve() {
    let mut s = Session::new();
    let p = s.add_step(point_step(pt(1, 2))).unwrap();
    let l = s.add_step(line(pt(3, 4), pt(5, 8))).unwrap();
    let n = s.add_data(DataData::Number(42)).unwrap();
    let d = s.add_data(DataData::Point(PointSignal { x: ResolvableTo::T(6), y: ResolvableTo::T(7) })).unwrap();
    let x = NumberSlot::Step { point: own(p), axis: Axis::X }.path();
    assert_eq!(x.resolve_number(&s.steps, &s.datas), Ok(1));
    let y = NumberSlot::Step { point: PointSlot { step: l, role: PointRole::End }, axis: Axis::Y }.path();
    assert_eq!(y.resolve_number(&s.steps, &s.datas), Ok(8));
    let mid_x = DataRef(vec![
        DataRefPathEl::Step,
        DataRefPathEl::WithId(l),
        DataRefPathEl::PropName(Prop::Mid),
        DataRefPathEl::PropName(Prop::X),
    ]);
    assert_eq!(mid_x.resolve_number(&s.steps, &s.datas), Ok(4));
    let num = DataRef(vec![DataRefPathEl::Data, DataRefPathEl::WithId(n), DataRefPathEl::PropName(Prop::Own)]);
    assert_eq!(num.resolve_number(&s.steps, &s.datas), Ok(42));
    let dy = NumberSlot::Data { data: d, axis: Axis::Y }.path();
    assert_eq!(dy.resolve_number(&s.steps, &s.datas), Ok(7));
    let dp = DataRef(vec![DataRefPathEl::Data, DataRefPathEl::WithId(d), DataRefPathEl::PropName(Prop::Own)]);
    assert_eq!(dp.resolve_point(&s.steps, &s.datas), Ok(pt(6, 7)));
    let bad = DataRef(vec![DataRefPathEl::Data, DataRefPathEl::WithId(n), DataRefPathEl::PropName(Prop::X)]);
    assert_eq!(bad.resolve_number(&s.steps, &s.datas), Err(ResolveError::InvalidProperty));
    let line_x = DataRef(vec![DataRefPathEl::Step, DataRefPathEl::WithId(l), DataRefPathEl::PropName(Prop::X)]);
    assert_eq!(line_x.resolve_number(&s.steps, &s.datas), Err(ResolveError::InvalidProperty));
}

#[test]
fn number_binding() {
    let mut s = Session::new();
    let p = s.add_step(point_step(pt(1, 2))).unwrap();
    let d = s.add_data(DataData::Point(PointSignal { x: ResolvableTo::T(6), y: ResolvableTo::T(7) })).unwrap();
    let target = NumberSlot::Step { point: own(p), axis: Axis::X };
    s.arm_infer(InferTarget::Number(target));
    assert!(!s.pointer_down(pt(0, 0)));
    assert_eq!(s.infer_target, Some(InferTarget::Number(target)));
    assert!(s.bind_number(NumberSlot::Data { data: d, axis: Axis::Y }));
    assert_eq!(s.infer_target, None);
    assert_eq!(resolve_slot(&s, own(p)), Ok(pt(7, 2)));
    assert!(s.set_number(NumberSlot::Data { data: d, axis: Axis::Y }, ResolvableTo::T(-5)));
    assert_eq!(resolve_slot(&s, own(p)), Ok(pt(-5, 2)));
    assert!(!s.bind_number(NumberSlot::Data { data: d, axis: Axis::X }));
}

#[test]
fn set_number_on_missing_slot() {
    let mut s = Session::new();
    let l = s.add_step(line(pt(0, 0), pt(1, 1))).unwrap();
    assert!(!s.set_number(NumberSlot::Step { point: own(l), axis: Axis::X }, ResolvableTo::T(3)));
    assert!(!s.set_number(NumberSlot::Data { data: 0, axis: Axis::X }, ResolvableTo::T(3)));
    assert!(s.set_number(
        NumberSlot::Step { point: PointSlot { step: l, role: PointRole::End }, axis: Axis::X },
        ResolvableTo::T(3)
    ));
    let end = PointSlot { step: l, role: PointRole::End };
    assert_eq!(resolve_slot(&s, end), Ok(pt(3, 1)));
}

#[test]
fn render_while_armed() {
    let mut s = Session::new();
    s.add_step(line(pt(0, 0), pt(4, 2))).unwrap();
    let c = s.add_step(point_step(pt(20, 20))).unwrap();
    let idle = s.render(pt(2, 1));
    assert_eq!(idle.len(), 2 + 4);
    assert_eq!(idle[0], DrawCommand::Line { from: pt(0, 0), to: pt(4, 2) });
    assert_eq!(idle[3], DrawCommand::SnapMarker { at: pt(2, 1), highlighted: false });
    s.arm_infer(InferTarget::Point(own(c)));
    let armed = s.render(pt(2, 1));
    assert_eq!(armed.len(), 2 + 4 + 1);
    assert_eq!(armed[3], DrawCommand::SnapMarker { at: pt(2, 1), highlighted: true });
    assert_eq!(armed[6], DrawCommand::Candidate { at: pt(2, 1), bound: true });
    let free = s.render(pt(40, 40));
    assert_eq!(free[6], DrawCommand::Candidate { at: pt(40, 40), bound: false });
}

#[test]
fn ids_are_never_reused() {
    let mut s = Session::new();
    assert_eq!(s.add_step(point_step(pt(0, 0))), Some(0));
    assert_eq!(s.add_step(point_step(pt(0, 0))), Some(1));
    assert!(s.remove_step(1));
    assert!(!s.remove_step(1));
    assert_eq!(s.add_step(point_step(pt(0, 0))), Some(2));
    assert_eq!(s.add_data(DataData::Number(1)), Some(0));
    assert!(s.remove_data(0));
    assert!(!s.remove_data(0));
    assert_eq!(s.add_data(DataData::Number(1)), Some(1));
}

#[test]
fn data_number_edit() {
    let mut s = Session::new();
    let n = s.add_data(DataData::Number(1)).unwrap();
    let d = s.add_data(DataData::Point(PointSignal { x: ResolvableTo::T(6), y: ResolvableTo::T(7) })).unwrap();
    assert!(s.set_data_number(n, -12));
    assert!(!s.set_data_number(d, 3));
    assert!(!s.set_data_number(99, 3));
    let num = DataRef(vec![DataRefPathEl::Data, DataRefPathEl::WithId(n), DataRefPathEl::PropName(Prop::Own)]);
    assert_eq!(num.resolve_number(&s.steps, &s.datas), Ok(-12));
    assert_eq!(s.datas[1].data, DataData::Point(PointSignal { x: ResolvableTo::T(6), y: ResolvableTo::T(7) }));
}

#[test]
fn slot_lookup() {
    let mut s = Session::new();
    let p = s.add_step(point_step(pt(1, 2))).unwrap();
    let l = s.add_step(line(pt(3, 4), pt(5, 6))).unwrap();
    let d = s.add_data(DataData::Point(PointSignal { x: ResolvableTo::T(6), y: ResolvableTo::T(7) })).unwrap();
    assert_eq!(s.point_slot(own(p)), Some(&literal_point(pt(1, 2))));
    assert_eq!(s.point_slot(PointSlot { step: l, role: PointRole::End }), Some(&literal_point(pt(5, 6))));
    assert_eq!(s.point_slot(own(l)), None);
    assert_eq!(s.point_slot(own(42)), None);
    let sx = NumberSlot::Step { point: PointSlot { step: l, role: PointRole::Start }, axis: Axis::X };
    assert_eq!(s.number_slot(sx), Some(&ResolvableTo::T(3)));
    assert_eq!(s.number_slot(NumberSlot::Data { data: d, axis: Axis::Y }), Some(&ResolvableTo::T(7)));
    assert!(s.set_point(own(p), ResolvableTo::Ref(own(l).path())));
    assert_eq!(s.number_slot(NumberSlot::Step { point: own(p), axis: Axis::X }), None);
}

#[test]
fn geometry_helpers() {
    assert_eq!(midpoint(pt(0, 0), pt(4, 2)), pt(2, 1));
    assert_eq!(mean_coord(-3, 0), -2);
    assert_eq!(mean_coord(3, 0), 1);
    assert_eq!(mean_coord(i64::MIN, i64::MIN), i64::MIN);
    assert_eq!(near_dist_sq(pt(0, 0), pt(3, 4)), Some(25));
    assert_eq!(near_dist_sq(pt(1, 1), pt(2, 3)), Some(5));
    assert_eq!(near_dist_sq(pt(0, 0), pt(5, 0)), None);
    assert_eq!(near_dist_sq(pt(i64::MIN, 0), pt(i64::MAX, 0)), None);
    assert_eq!(Prop::Own.name(), "self");
    assert_eq!(Prop::Mid.name(), "mid");
}

use vstd::prelude::*;
use crate::geom::Point;
use crate::model::{Data, PointSignal, ResolvableTo, Step, StepData, paths_of};
use crate::path::DataRefPathEl;
use crate::resolve::{MAX_REF_DEPTH, ResolveError, point_at, resolvable_point_at};
use crate::session::{Session, is_candidate, snap_index_spec};

verus! {

/// One thing for the canvas to draw.
#[derive(Clone, Copy, Debug, PartialEq, Eq, Structural)]
pub enum DrawCommand {
    /// A point step, as a circle at its point.
    Point { at: Point },
    /// A line step, as a segment between its endpoints.
    Line { from: Point, to: Point },
    /// A step whose geometry did not resolve, as an error indicator.
    Unresolved { step: usize, error: ResolveError },
    /// An anchor; highlighted while an infer gesture is armed.
    SnapMarker { at: Point, highlighted: bool },
    /// The hover candidate; filled when it is bound to an anchor.
    Candidate { at: Point, bound: bool },
}

/// What is drawn for one step: its shape, or an error indicator.
pub open spec fn step_command(steps: Seq<Step>, datas: Seq<Data>, st: Step) -> DrawCommand {
    match st.data {
        StepData::DrawPoint(rp) => match resolvable_point_at(steps, datas, rp, MAX_REF_DEPTH as nat) {
            Ok(p) => DrawCommand::Point { at: p },
            Err(e) => DrawCommand::Unresolved { step: st.id, error: e },
        },
        StepData::DrawLine { start, end } => match resolvable_point_at(
            steps,
            datas,
            start,
            MAX_REF_DEPTH as nat,
        ) {
            Err(e) => DrawCommand::Unresolved { step: st.id, error: e },
            Ok(a) => match resolvable_point_at(steps, datas, end, MAX_REF_DEPTH as nat) {
                Err(e) => DrawCommand::Unresolved { step: st.id, error: e },
                Ok(b) => DrawCommand::Line { from: a, to: b },
            },
        },
    }
}

/// One marker for each anchor that resolves, in index order.
pub open spec fn marker_commands(
    steps: Seq<Step>,
    datas: Seq<Data>,
    anchors: Seq<Seq<DataRefPathEl>>,
    highlighted: bool,
) -> Seq<DrawCommand>
    decreases anchors.len(),
{
    if anchors.len() == 0 {
        Seq::empty()
    } else {
        marker_commands(steps, datas, anchors.drop_last(), highlighted) + match point_at(
            steps,
            datas,
            anchors.last(),
            MAX_REF_DEPTH as nat,
        ) {
            Ok(p) => seq![DrawCommand::SnapMarker { at: p, highlighted }],
            Err(_) => Seq::empty(),
        }
    }
}

/// The marker for a hover candidate, if it resolves.
pub open spec fn candidate_commands(
    steps: Seq<Step>,
    datas: Seq<Data>,
    c: ResolvableTo<PointSignal>,
) -> Seq<DrawCommand> {
    match resolvable_point_at(steps, datas, c, MAX_REF_DEPTH as nat) {
        Ok(p) => seq![DrawCommand::Candidate { at: p, bound: c is Ref }],
        Err(_) => Seq::empty(),
    }
}

/// The commands for every step, in step order.
pub open spec fn step_commands(steps: Seq<Step>, datas: Seq<Data>) -> Seq<DrawCommand> {
    steps.map_values(|st: Step| step_command(steps, datas, st))
}

fn step_command_of(steps: &Vec<Step>, datas: &Vec<Data>, st: &Step) -> (r: DrawCommand)
    ensures
        r == step_command(steps@, datas@, *st),
{
    match &st.data {
        StepData::DrawPoint(rp) => match rp.resolve(steps, datas) {
            Ok(p) => DrawCommand::Point { at: p },
            Err(e) => DrawCommand::Unresolved { step: st.id, error: e },
        },
        StepData::DrawLine { start, end } => match start.resolve(steps, datas) {
            Err(e) => DrawCommand::Unresolved { step: st.id, error: e },
            Ok(a) => match end.resolve(steps, datas) {
                Err(e) => DrawCommand::Unresolved { step: st.id, error: e },
                Ok(b) => DrawCommand::Line { from: a, to: b },
            },
        },
    }
}

impl Session {
    /// One redraw: a command for every step (its shape, or an error indicator
    /// when it does not resolve), then a marker for every anchor that
    /// resolves, then, while an infer gesture is armed, the hover candidate at
    /// the cursor.
    pub fn render(&self, cursor: Point) -> (r: Vec<DrawCommand>)
        requires
            self.wf(),
        ensures
            r@.subrange(0, self.steps@.len() as int) == step_commands(self.steps@, self.datas@),
            ({
                let m = marker_commands(
                    self.steps@,
                    self.datas@,
                    snap_index_spec(self.steps@),
                    self.infer_target is Some,
                );
                let n = self.steps@.len() + m.len() as int;
                &&& n <= r@.len()
                &&& r@.subrange(self.steps@.len() as int, n) == m
                &&& self.infer_target is None ==> r@.len() == n
                &&& self.infer_target is Some ==> exists|c: ResolvableTo<PointSignal>|
                    is_candidate(c, self.steps@, self.datas@, cursor) && r@.subrange(n, r@.len() as int)
                        == candidate_commands(self.steps@, self.datas@, c)
            }),
    {
        let ghost steps = self.steps@;
        let ghost datas = self.datas@;
        let mut out: Vec<DrawCommand> = Vec::new();
        let mut i: usize = 0;
        while i < self.steps.len()
            invariant
                i <= steps.len(),
                steps == self.steps@,
                datas == self.datas@,
                out@ == step_commands(steps, datas).subrange(0, i as int),
            decreases steps.len() - i,
        {
            let cmd = step_command_of(&self.steps, &self.datas, &self.steps[i]);
            out.push(cmd);
            assert(out@ =~= step_commands(steps, datas).subrange(0, i + 1));
            i += 1;
        }
        assert(out@ =~= step_commands(steps, datas));
        let highlighted = self.infer_target.is_some();
        let ghost anchors = snap_index_spec(steps);
        let mut k: usize = 0;
        while k < self.snap.len()
            invariant
                self.wf(),
                steps == self.steps@,
                datas == self.datas@,
                anchors == paths_of(self.snap@),
                k <= self.snap@.len(),
                highlighted == self.infer_target is Some,
                out@ == step_commands(steps, datas) + marker_commands(
                    steps,
                    datas,
                    anchors.subrange(0, k as int),
                    highlighted,
                ),
            decreases self.snap@.len() - k,
        {
            let ghost before = out@;
            proof {
                assert(anchors[k as int] == self.snap@[k as int]@);
                assert(anchors.subrange(0, k + 1).drop_last() =~= anchors.subrange(0, k as int));
            }
            match self.snap[k].resolve_point(&self.steps, &self.datas) {
                Ok(p) => {
                    out.push(DrawCommand::SnapMarker { at: p, highlighted });
                },
                Err(_) => {},
            }
            assert(out@ =~= step_commands(steps, datas) + marker_commands(
                steps,
                datas,
                anchors.subrange(0, k + 1),
                highlighted,
            ));
            k += 1;
        }
        assert(anchors.subrange(0, self.snap@.len() as int) =~= anchors);
        let ghost m = marker_commands(steps, datas, anchors, highlighted);
        let ghost n: int = steps.len() + m.len() as int;
        assert(out@.subrange(0, steps.len() as int) =~= step_commands(steps, datas));
        assert(out@.subrange(steps.len() as int, n) =~= m);
        if highlighted {
            let c = self.hover_candidate(cursor);
            let ghost before = out@;
            match c.resolve(&self.steps, &self.datas) {
                Ok(p) => {
                    out.push(DrawCommand::Candidate { at: p, bound: matches!(c, ResolvableTo::Ref(_)) });
                },
                Err(_) => {},
            }
            assert(out@.subrange(0, steps.len() as int) =~= step_commands(steps, datas));
            assert(out@.subrange(steps.len() as int, n) =~= m);
            assert(out@.subrange(n, out@.len() as int) =~= candidate_commands(steps, datas, c));
        }
        out
    }
}

} // verus!

//! A reference-resolution and snap-point engine for a 2-D drawing tool.
//!
//! Points and numbers are either literals or references (paths such as
//! `step[3].mid`) into other primitives' derived anchors. The library resolves
//! references with a bounded depth, keeps a memoized index of every anchor,
//! drives the infer gesture that rebinds a slot by clicking near an anchor,
//! and renders a scene as a list of draw commands.
//!
//! Coordinates are whole logical units (`i64`); a midpoint rounds down.

use vstd::prelude::*;

pub mod geom;
pub mod path;
pub mod model;
pub mod resolve;
pub mod session;
pub mod render;
pub mod laws;

pub use geom::Point;
pub use model::{Data, DataData, PointSignal, ResolvableTo, Step, StepData};
pub use path::{DataRef, DataRefPathEl, Prop};
pub use render::DrawCommand;
pub use resolve::ResolveError;
pub use session::{Axis, InferTarget, NumberSlot, PointRole, PointSlot, Session};

verus! {

} // verus!

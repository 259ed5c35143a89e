//! The entry point that the host loop calls once per frame.

use vstd::prelude::*;
use crate::engine::{passed_over, states, stepped, HitTestEngine};
use crate::mapper::{CameraState, CoordinateMapper, ScreenCursor};
use crate::object::InteractiveObject;

verus! {

/// What the host knows at the start of a frame: the cursor, and the active
/// camera if there is one.
#[derive(Clone, Copy, Debug, PartialEq, Eq)]
pub struct FrameContext {
    pub cursor: ScreenCursor,
    pub camera: Option<CameraState>,
}

/// Whether a frame was carried out.
#[derive(Clone, Copy, Debug, PartialEq, Eq, Structural)]
pub enum FrameSignal {
    /// Every object was stepped.
    Processed,
    /// No camera was available; the objects are as they were.
    Skipped,
}

/// The outcome of one frame.
#[derive(Debug, PartialEq, Eq)]
pub struct FrameReport {
    pub signal: FrameSignal,
    /// Handles of the objects passed over because their size source was
    /// unresolved, in scene order.
    pub unresolved: Vec<u64>,
}

/// Runs one frame: maps the cursor into the world through the camera and
/// steps every object against the result.
///
/// Without a camera the frame is skipped and nothing changes. An absent
/// cursor or a degenerate viewport gives no world point, which clears
/// every highlight.
pub fn tick(context: &FrameContext, objects: &mut [InteractiveObject]) -> (report: FrameReport)
    ensures
        final(objects)@.len() == old(objects)@.len(),
        match context.camera {
            None => {
                &&& report.signal == FrameSignal::Skipped
                &&& report.unresolved@ == Seq::<u64>::empty()
                &&& final(objects)@ == old(objects)@
            },
            Some(camera) => {
                let point = CoordinateMapper::world_point(context.cursor, camera);
                &&& report.signal == FrameSignal::Processed
                &&& report.unresolved@ == passed_over(states(old(objects)@), point)
                &&& states(final(objects)@) == stepped(states(old(objects)@), point)
                &&& forall|i: int|
                    0 <= i < old(objects)@.len() ==> (#[trigger] final(objects)@[i])@ == old(
                        objects,
                    )@[i]@.step(point)
            },
        },
{
    match context.camera {
        None => FrameReport { signal: FrameSignal::Skipped, unresolved: Vec::new() },
        Some(camera) => {
            let point = CoordinateMapper::map_to_world(&context.cursor, &camera);
            let unresolved = HitTestEngine::update(point, objects);
            FrameReport { signal: FrameSignal::Processed, unresolved }
        },
    }
}

} // verus!

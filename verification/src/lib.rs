//! Pointer-to-world hit testing and hover highlighting for a 2D scene.
//!
//! Once per frame the host hands over a snapshot of the cursor and of the
//! active camera together with its interactive objects. The
//! [`CoordinateMapper`] turns the cursor into a point of the world, and the
//! [`HitTestEngine`] tests that point against the bounding box of every
//! object, sets each highlight and moves an atlas sprite on to its next
//! frame whenever the pointer enters it. [`tick`] does both in one call.
//!
//! All lengths are fixed-point integers. The host picks how many units
//! make up a pixel and a world unit and converts at its own boundary, so
//! that every test for containment is exact.

pub mod engine;
pub mod frame;
pub mod mapper;
pub mod object;

pub use engine::HitTestEngine;
pub use frame::{tick, FrameContext, FrameReport, FrameSignal};
pub use mapper::{CameraState, CoordinateMapper, PixelPoint, Projection, ScreenCursor, WorldPoint};
pub use object::{InteractiveObject, ObjectError, ObjectState, SizeSource};

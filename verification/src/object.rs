//! Interactive objects and their per-frame hover state.

use vstd::prelude::*;
use crate::mapper::WorldPoint;

verus! {

/// Where an object's footprint comes from.
#[derive(Clone, Copy, Debug, PartialEq, Eq, Structural)]
pub enum SizeSource {
    /// A single image of the given size.
    FixedFootprint { width: u32, height: u32 },
    /// One cell of a frame atlas; every frame has the size of the cell.
    AtlasFootprint { cell_width: u32, cell_height: u32, frame_count: u32 },
}

/// Why an object could not be built, changed or stepped.
#[derive(Clone, Copy, Debug, PartialEq, Eq, Structural)]
pub enum ObjectError {
    /// The footprint is empty along an axis.
    EmptyFootprint,
    /// The frame index lies outside the atlas, or there is no atlas.
    InvalidFrameIndex,
    /// The size source cannot be resolved, so the object was passed over.
    UnresolvedFootprint,
}

impl SizeSource {
    /// Width of the footprint in world units.
    pub open spec fn width(self) -> int {
        match self {
            SizeSource::FixedFootprint { width, .. } => width as int,
            SizeSource::AtlasFootprint { cell_width, .. } => cell_width as int,
        }
    }

    /// Height of the footprint in world units.
    pub open spec fn height(self) -> int {
        match self {
            SizeSource::FixedFootprint { height, .. } => height as int,
            SizeSource::AtlasFootprint { cell_height, .. } => cell_height as int,
        }
    }

    /// Number of frames the source offers; a fixed image has one.
    pub open spec fn frames(self) -> int {
        match self {
            SizeSource::FixedFootprint { .. } => 1,
            SizeSource::AtlasFootprint { frame_count, .. } => frame_count as int,
        }
    }

    /// The frame shown after `frame` when the pointer enters: the next
    /// cell of an atlas, wrapping around after the last. A fixed image
    /// stays as it is.
    pub open spec fn next_frame(self, frame: int) -> int {
        match self {
            SizeSource::FixedFootprint { .. } => frame,
            SizeSource::AtlasFootprint { frame_count, .. } => (frame + 1) % (frame_count as int),
        }
    }

    /// The footprint has an area.
    pub open spec fn has_area(self) -> bool {
        self.width() > 0 && self.height() > 0
    }
}

/// The mathematical state of an interactive object.
pub struct ObjectState {
    pub id: u64,
    pub x: int,
    pub y: int,
    pub source: SizeSource,
    pub resolved: bool,
    pub hovered: bool,
    pub frame: int,
}

/// Whether the closed box of the given size centred on `(cx, cy)` holds
/// the point `(px, py)`. The half extents may be half units, so both sides
/// are doubled.
pub open spec fn box_contains(cx: int, cy: int, width: int, height: int, px: int, py: int) -> bool {
    &&& 2 * cx - width <= 2 * px <= 2 * cx + width
    &&& 2 * cy - height <= 2 * py <= 2 * cy + height
}

impl ObjectState {
    /// The footprint has an area and the frame index lies inside the
    /// source.
    pub open spec fn valid(self) -> bool {
        &&& self.source.has_area()
        &&& 0 <= self.frame < self.source.frames()
    }

    /// The object's bounding box holds `point`.
    pub open spec fn contains(self, point: WorldPoint) -> bool {
        box_contains(
            self.x,
            self.y,
            self.source.width(),
            self.source.height(),
            point.x as int,
            point.y as int,
        )
    }

    /// `point` lies on one of the four edges of the bounding box, corners
    /// included.
    pub open spec fn on_boundary(self, point: WorldPoint) -> bool {
        let left = 2 * self.x - self.source.width();
        let right = 2 * self.x + self.source.width();
        let bottom = 2 * self.y - self.source.height();
        let top = 2 * self.y + self.source.height();
        ||| (2 * point.x == left || 2 * point.x == right) && bottom <= 2 * point.y <= top
        ||| (2 * point.y == bottom || 2 * point.y == top) && left <= 2 * point.x <= right
    }

    /// The state after a run of frames, given by the pointer of each frame
    /// in turn.
    pub open spec fn run(self, points: Seq<Option<WorldPoint>>) -> ObjectState
        decreases points.len(),
    {
        if points.len() == 0 {
            self
        } else {
            self.run(points.drop_last()).step(points.last())
        }
    }

    /// How often the pointer enters the box during a run of frames: the
    /// number of steps that take the object from idle to hovered.
    pub open spec fn entries(self, points: Seq<Option<WorldPoint>>) -> nat
        decreases points.len(),
    {
        if points.len() == 0 {
            0
        } else {
            let before = self.run(points.drop_last());
            let entered = !before.hovered && before.step(points.last()).hovered;
            self.entries(points.drop_last()) + if entered {
                1nat
            } else {
                0nat
            }
        }
    }

    /// The state after one frame with the pointer at `point`.
    ///
    /// Without a pointer the highlight is cleared. An object whose size
    /// source is unresolved is left alone. Otherwise the highlight follows
    /// containment, and the frame advances by one, wrapping around, when
    /// the pointer enters the box.
    pub open spec fn step(self, point: Option<WorldPoint>) -> ObjectState {
        match point {
            None => ObjectState { hovered: false, ..self },
            Some(p) => {
                if !self.resolved {
                    self
                } else if self.contains(p) {
                    ObjectState {
                        hovered: true,
                        frame: if self.hovered {
                            self.frame
                        } else {
                            self.source.next_frame(self.frame)
                        },
                        ..self
                    }
                } else {
                    ObjectState { hovered: false, ..self }
                }
            },
        }
    }
}

/// A point on the boundary of the bounding box is inside: the box is
/// closed, so a pointer resting exactly on an edge highlights a resolved
/// object.
pub proof fn lemma_boundary_is_inside(object: ObjectState, point: WorldPoint)
    requires
        object.valid(),
        object.on_boundary(point),
    ensures
        object.contains(point),
        object.resolved ==> object.step(Some(point)).hovered,
{
}

/// A step keeps a valid state valid: the frame index stays inside the
/// source.
pub proof fn lemma_step_keeps_valid(object: ObjectState, point: Option<WorldPoint>)
    requires
        object.valid(),
    ensures
        object.step(point).valid(),
{
    match object.source {
        SizeSource::FixedFootprint { .. } => {},
        SizeSource::AtlasFootprint { frame_count, .. } => {
            lemma_next_frame(object.frame, frame_count as int);
        },
    }
}

/// A step changes nothing but the highlight and the frame.
pub proof fn lemma_step_touches_only_hover_and_frame(object: ObjectState, point: Option<WorldPoint>)
    ensures
        object.step(point) == (ObjectState {
            hovered: object.step(point).hovered,
            frame: object.step(point).frame,
            ..object
        }),
{
}

/// Without a pointer a step clears the highlight and leaves the frame.
pub proof fn lemma_absence_clears(object: ObjectState)
    ensures
        !object.step(None).hovered,
        object.step(None).frame == object.frame,
{
}

/// The highlight is level-triggered: after a step with a pointer, a
/// resolved object is highlighted exactly when its box holds the point.
pub proof fn lemma_highlight_follows_containment(object: ObjectState, point: WorldPoint)
    requires
        object.resolved,
    ensures
        object.step(Some(point)).hovered == object.contains(point),
{
}

/// The frame advance is edge-triggered: the frame moves on, by one and
/// wrapping around, exactly on the step that takes a resolved atlas object
/// from idle to hovered. Every other step leaves the frame as it is.
pub proof fn lemma_frame_advances_on_entry_only(object: ObjectState, point: Option<WorldPoint>)
    requires
        object.valid(),
    ensures
        ({
            let after = object.step(point);
            let entered = !object.hovered && after.hovered;
            &&& entered && object.source is AtlasFootprint ==> after.frame == (object.frame + 1)
                % object.source.frames()
            &&& !(entered && object.source is AtlasFootprint) ==> after.frame == object.frame
        }),
{
}

/// Over any run of frames an atlas object shows the frame it started on
/// moved forward once for each time the pointer entered its box, wrapping
/// around the atlas. Staying inside, staying outside and leaving count for
/// nothing.
pub proof fn lemma_frame_counts_entries(object: ObjectState, points: Seq<Option<WorldPoint>>)
    requires
        object.valid(),
        object.source is AtlasFootprint,
    ensures
        object.run(points).valid(),
        object.run(points).source == object.source,
        object.run(points).frame == (object.frame + object.entries(points))
            % object.source.frames(),
    decreases points.len(),
{
    let frames = object.source.frames();
    if points.len() == 0 {
        vstd::arithmetic::div_mod::lemma_small_mod(object.frame as nat, frames as nat);
    } else {
        let earlier = points.drop_last();
        let before = object.run(earlier);
        lemma_frame_counts_entries(object, earlier);
        lemma_step_keeps_valid(before, points.last());
        if !before.hovered && before.step(points.last()).hovered {
            let sum = object.frame + object.entries(earlier);
            vstd::arithmetic::div_mod::lemma_add_mod_noop(sum, 1, frames);
            vstd::arithmetic::div_mod::lemma_add_mod_noop(sum % frames, 1, frames);
            vstd::arithmetic::div_mod::lemma_mod_twice(sum, frames);
        }
    }
}

/// A run of frames in which the pointer enters the box once for every
/// frame of the atlas brings the object back to the frame it started on.
pub proof fn lemma_full_cycle_returns(object: ObjectState, points: Seq<Option<WorldPoint>>)
    requires
        object.valid(),
        object.source is AtlasFootprint,
        object.entries(points) == object.source.frames(),
    ensures
        object.run(points).frame == object.frame,
{
    let frames = object.source.frames();
    lemma_frame_counts_entries(object, points);
    vstd::arithmetic::div_mod::lemma_mod_add_multiples_vanish(object.frame, frames);
    vstd::arithmetic::div_mod::lemma_small_mod(object.frame as nat, frames as nat);
}

/// A fixed image shows the same frame after any run of frames.
pub proof fn lemma_fixed_image_keeps_frame(object: ObjectState, points: Seq<Option<WorldPoint>>)
    requires
        object.source is FixedFootprint,
    ensures
        object.run(points).source == object.source,
        object.run(points).frame == object.frame,
    decreases points.len(),
{
    if points.len() > 0 {
        lemma_fixed_image_keeps_frame(object, points.drop_last());
    }
}

/// An unresolved object is left as it is by a step with a pointer.
pub proof fn lemma_unresolved_is_left_alone(object: ObjectState, point: WorldPoint)
    requires
        !object.resolved,
    ensures
        object.step(Some(point)) == object,
{
}

/// Stepping to the next frame wraps to the first after the last.
proof fn lemma_next_frame(frame: int, frames: int)
    requires
        0 <= frame < frames,
    ensures
        (frame + 1) % frames == if frame + 1 == frames {
            0
        } else {
            frame + 1
        },
{
    if frame + 1 == frames {
        vstd::arithmetic::div_mod::lemma_mod_self_0(frames);
    } else {
        vstd::arithmetic::div_mod::lemma_small_mod((frame + 1) as nat, frames as nat);
    }
}

/// A sprite that reacts to the pointer.
#[derive(Clone, Copy, Debug, PartialEq, Eq)]
pub struct InteractiveObject {
    id: u64,
    x: i32,
    y: i32,
    source: SizeSource,
    resolved: bool,
    hovered: bool,
    frame: u32,
}

impl View for InteractiveObject {
    type V = ObjectState;

    closed spec fn view(&self) -> ObjectState {
        ObjectState {
            id: self.id,
            x: self.x as int,
            y: self.y as int,
            source: self.source,
            resolved: self.resolved,
            hovered: self.hovered,
            frame: self.frame as int,
        }
    }
}

impl InteractiveObject {
    #[verifier::type_invariant]
    spec fn inv(self) -> bool {
        self@.valid()
    }

    /// An idle object at `(x, y)` showing the first frame of `source`.
    ///
    /// A footprint without an area is rejected as `EmptyFootprint`, an
    /// atlas without frames as `InvalidFrameIndex`.
    pub fn new(id: u64, x: i32, y: i32, source: SizeSource) -> (made: Result<InteractiveObject, ObjectError>)
        ensures
            made is Ok <==> source.has_area() && source.frames() > 0,
            made matches Ok(object) ==> object@ == (ObjectState {
                id,
                x: x as int,
                y: y as int,
                source,
                resolved: true,
                hovered: false,
                frame: 0,
            }),
            made matches Err(e) ==> e == if source.has_area() {
                ObjectError::InvalidFrameIndex
            } else {
                ObjectError::EmptyFootprint
            },
    {
        let (width, height, frames) = match source {
            SizeSource::FixedFootprint { width, height } => (width, height, 1u32),
            SizeSource::AtlasFootprint { cell_width, cell_height, frame_count } => (
                cell_width,
                cell_height,
                frame_count,
            ),
        };
        if width == 0 || height == 0 {
            Err(ObjectError::EmptyFootprint)
        } else if frames == 0 {
            Err(ObjectError::InvalidFrameIndex)
        } else {
            Ok(InteractiveObject { id, x, y, source, resolved: true, hovered: false, frame: 0 })
        }
    }

    /// Whether the object's bounding box holds `point`, edges included.
    pub fn contains(&self, point: &WorldPoint) -> (inside: bool)
        ensures
            inside == self@.contains(*point),
    {
        let (width, height) = match self.source {
            SizeSource::FixedFootprint { width, height } => (width, height),
            SizeSource::AtlasFootprint { cell_width, cell_height, .. } => (cell_width, cell_height),
        };
        let dx: i128 = 2 * (point.x as i128 - self.x as i128);
        let dy: i128 = 2 * (point.y as i128 - self.y as i128);
        -(width as i128) <= dx && dx <= width as i128 && -(height as i128) <= dy && dy
            <= height as i128
    }

    /// Advances the object by one frame with the pointer at `point`.
    ///
    /// Fails with `UnresolvedFootprint`, leaving the object as it is, when
    /// there is a pointer and the size source is unresolved.
    pub fn step(&mut self, point: Option<WorldPoint>) -> (done: Result<(), ObjectError>)
        ensures
            final(self)@ == old(self)@.step(point),
            done is Err <==> point is Some && !old(self)@.resolved,
            done matches Err(e) ==> e == ObjectError::UnresolvedFootprint,
    {
        proof {
            use_type_invariant(&*self);
        }
        match point {
            None => {
                self.hovered = false;
                Ok(())
            },
            Some(p) => {
                if !self.resolved {
                    return Err(ObjectError::UnresolvedFootprint);
                }
                let inside = self.contains(&p);
                if inside && !self.hovered {
                    if let SizeSource::AtlasFootprint { frame_count, .. } = self.source {
                        proof {
                            lemma_next_frame(self.frame as int, frame_count as int);
                        }
                        self.frame = if self.frame + 1 == frame_count {
                            0
                        } else {
                            self.frame + 1
                        };
                    }
                }
                self.hovered = inside;
                Ok(())
            },
        }
    }
}

impl InteractiveObject {
    /// The stable handle the object was built with.
    pub fn id(&self) -> (id: u64)
        ensures
            id == self@.id,
    {
        self.id
    }

    /// The world position of the object's centre.
    pub fn position(&self) -> (at: (i32, i32))
        ensures
            at.0 == self@.x,
            at.1 == self@.y,
    {
        (self.x, self.y)
    }

    /// Where the footprint comes from. The footprint of an object always
    /// has an area.
    pub fn source(&self) -> (source: SizeSource)
        ensures
            source == self@.source,
            source.has_area(),
    {
        proof {
            use_type_invariant(self);
        }
        self.source
    }

    /// Whether the size source can currently be resolved.
    pub fn is_resolved(&self) -> (resolved: bool)
        ensures
            resolved == self@.resolved,
    {
        self.resolved
    }

    /// Whether the pointer was over the object at the last update.
    pub fn is_hovered(&self) -> (hovered: bool)
        ensures
            hovered == self@.hovered,
    {
        self.hovered
    }

    /// The atlas cell on display, or `None` for a fixed image. The index
    /// always lies inside the atlas.
    pub fn frame_index(&self) -> (frame: Option<u32>)
        ensures
            frame is Some <==> self@.source is AtlasFootprint,
            frame matches Some(index) ==> index == self@.frame && index < self@.source.frames(),
    {
        proof {
            use_type_invariant(self);
        }
        match self.source {
            SizeSource::FixedFootprint { .. } => None,
            SizeSource::AtlasFootprint { .. } => Some(self.frame),
        }
    }

    /// Moves the object's centre to `(x, y)`.
    pub fn set_position(&mut self, x: i32, y: i32)
        ensures
            final(self)@ == (ObjectState { x: x as int, y: y as int, ..old(self)@ }),
    {
        proof {
            use_type_invariant(&*self);
        }
        self.x = x;
        self.y = y;
    }

    /// Records whether the size source can be resolved; while it cannot,
    /// updates with a pointer leave the object alone.
    pub fn set_resolved(&mut self, resolved: bool)
        ensures
            final(self)@ == (ObjectState { resolved, ..old(self)@ }),
    {
        proof {
            use_type_invariant(&*self);
        }
        self.resolved = resolved;
    }

    /// Replaces the size source and marks it resolved. The frame on
    /// display stays. Fails, changing nothing, with `EmptyFootprint` when
    /// the new footprint has no area, and with `InvalidFrameIndex` when the
    /// new source has no frame of the current index.
    pub fn set_source(&mut self, source: SizeSource) -> (done: Result<(), ObjectError>)
        ensures
            done is Ok <==> source.has_area() && old(self)@.frame < source.frames(),
            done is Ok ==> final(self)@ == (ObjectState { source, resolved: true, ..old(self)@ }),
            done matches Err(e) ==> final(self)@ == old(self)@ && e == if source.has_area() {
                ObjectError::InvalidFrameIndex
            } else {
                ObjectError::EmptyFootprint
            },
    {
        proof {
            use_type_invariant(&*self);
        }
        let (width, height, frames) = match source {
            SizeSource::FixedFootprint { width, height } => (width, height, 1u32),
            SizeSource::AtlasFootprint { cell_width, cell_height, frame_count } => (
                cell_width,
                cell_height,
                frame_count,
            ),
        };
        if width == 0 || height == 0 {
            Err(ObjectError::EmptyFootprint)
        } else if self.frame >= frames {
            Err(ObjectError::InvalidFrameIndex)
        } else {
            *self = InteractiveObject { source, resolved: true, ..*self };
            Ok(())
        }
    }

    /// Shows the atlas cell `frame`. Fails, changing nothing, when the
    /// object has no atlas or the atlas has no such cell.
    pub fn set_frame(&mut self, frame: u32) -> (done: Result<(), ObjectError>)
        ensures
            done is Ok <==> old(self)@.source is AtlasFootprint && frame < old(self)@.source.frames(),
            done is Ok ==> final(self)@ == (ObjectState { frame: frame as int, ..old(self)@ }),
            done matches Err(e) ==> e == ObjectError::InvalidFrameIndex && final(self)@ == old(self)@,
    {
        proof {
            use_type_invariant(&*self);
        }
        match self.source {
            SizeSource::FixedFootprint { .. } => Err(ObjectError::InvalidFrameIndex),
            SizeSource::AtlasFootprint { frame_count, .. } => {
                if frame < frame_count {
                    self.frame = frame;
                    Ok(())
                } else {
                    Err(ObjectError::InvalidFrameIndex)
                }
            },
        }
    }
}

} // verus!

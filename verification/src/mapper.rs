//! Screen-to-world coordinate mapping through an orthographic camera.

use vstd::prelude::*;

verus! {

/// A point of the world plane, in fixed-point world units.
#[derive(Clone, Copy, Debug, PartialEq, Eq, Structural)]
pub struct WorldPoint {
    pub x: i64,
    pub y: i64,
}

/// A position inside a viewport, in fixed-point pixel units.
#[derive(Clone, Copy, Debug, PartialEq, Eq, Structural)]
pub struct PixelPoint {
    pub x: i32,
    pub y: i32,
}

/// The cursor as the windowing layer reports it for one frame.
///
/// `position` is `None` while the pointer is outside the window. The
/// viewport size is given in the same units as the position.
#[derive(Clone, Copy, Debug, PartialEq, Eq)]
pub struct ScreenCursor {
    pub position: Option<PixelPoint>,
    pub viewport_width: i32,
    pub viewport_height: i32,
}

/// An orthographic projection centred on the camera: the extent of the
/// world, in world units, that the viewport shows along each axis. It maps
/// the normalized coordinates `-1` and `1` to half the extent on either
/// side of the camera.
#[derive(Clone, Copy, Debug, PartialEq, Eq, Structural)]
pub struct Projection {
    pub width: i32,
    pub height: i32,
}

/// A snapshot of the active camera: its translation in the world plane,
/// which is the world point shown at the centre of the viewport, and its
/// projection. The camera is axis-aligned: it can be moved and zoomed, not
/// turned.
#[derive(Clone, Copy, Debug, PartialEq, Eq, Structural)]
pub struct CameraState {
    pub x: i32,
    pub y: i32,
    pub projection: Projection,
}

/// The world coordinate that a pixel coordinate maps to along one axis.
///
/// With `ndc = 2 * pixel / viewport - 1` the normalized coordinate in
/// `[-1, 1]`, the result is `center + ndc * extent / 2`, rounded down to a
/// whole unit.
pub open spec fn axis_to_world(pixel: int, viewport: int, center: int, extent: int) -> int {
    center + ((2 * pixel - viewport) * extent) / (2 * viewport)
}

/// The pixel coordinate that a world coordinate projects to along one axis:
/// the inverse of [`axis_to_world`], rounded down to a whole unit.
pub open spec fn axis_to_screen(world: int, viewport: int, center: int, extent: int) -> int {
    ((2 * (world - center) + extent) * viewport) / (2 * extent)
}

impl ScreenCursor {
    /// The pointer is outside the window.
    pub open spec fn absent(self) -> bool {
        self.position is None
    }

    /// The viewport has no area.
    pub open spec fn degenerate(self) -> bool {
        self.viewport_width <= 0 || self.viewport_height <= 0
    }
}

impl Projection {
    /// The projection shows no part of the world that has an area, so
    /// world points cannot be projected through it.
    pub open spec fn degenerate(self) -> bool {
        self.width <= 0 || self.height <= 0
    }
}

/// Bounds on the scaled offset of a pixel and on its quotient by the
/// doubled viewport size.
proof fn lemma_scaled_offset_bounds(pixel: i32, viewport: i32, extent: i32)
    requires
        viewport > 0,
    ensures
        -0xC000_0000_0000_0000 <= (2 * pixel - viewport) * extent <= 0xC000_0000_0000_0000,
        -0x6000_0000_0000_0000 <= ((2 * pixel - viewport) * extent) / (2 * viewport)
            <= 0x6000_0000_0000_0000,
{
    let doubled = 2 * pixel - viewport;
    let scaled = doubled * extent;
    assert(-0xC000_0000_0000_0000 <= scaled <= 0xC000_0000_0000_0000) by (nonlinear_arith)
        requires
            scaled == doubled * extent,
            -0x1_8000_0000 <= doubled <= 0x1_8000_0000,
            -0x8000_0000 <= extent <= 0x8000_0000,
    ;
    assert(-0x6000_0000_0000_0000 <= scaled / (2 * viewport) <= 0x6000_0000_0000_0000)
        by (nonlinear_arith)
        requires
            -0xC000_0000_0000_0000 <= scaled <= 0xC000_0000_0000_0000,
            viewport >= 1,
    ;
}

/// A pixel coordinate in a viewport that has an area maps to a world
/// coordinate that a `WorldPoint` can hold.
pub proof fn lemma_axis_to_world_fits(pixel: i32, viewport: i32, center: i32, extent: i32)
    requires
        viewport > 0,
    ensures
        i64::MIN <= axis_to_world(pixel as int, viewport as int, center as int, extent as int)
            <= i64::MAX,
{
    lemma_scaled_offset_bounds(pixel, viewport, extent);
}

fn scale_axis(pixel: i32, viewport: i32, center: i32, extent: i32) -> (world: i64)
    requires
        viewport > 0,
    ensures
        world == axis_to_world(pixel as int, viewport as int, center as int, extent as int),
{
    proof {
        lemma_scaled_offset_bounds(pixel, viewport, extent);
    }
    let doubled: i128 = 2 * (pixel as i128) - (viewport as i128);
    let scaled: i128 = doubled * (extent as i128);
    let span: i128 = 2 * (viewport as i128);
    let offset: i128 = scaled.checked_div_euclid(span).unwrap();
    (center as i128 + offset) as i64
}

fn project_axis(world: i64, viewport: i32, center: i32, extent: i32) -> (pixel: Option<i32>)
    requires
        viewport > 0,
        extent > 0,
    ensures
        pixel is Some <==> i32::MIN <= axis_to_screen(
            world as int,
            viewport as int,
            center as int,
            extent as int,
        ) <= i32::MAX,
        pixel matches Some(p) ==> p == axis_to_screen(
            world as int,
            viewport as int,
            center as int,
            extent as int,
        ),
{
    let shifted: i128 = 2 * (world as i128 - center as i128) + extent as i128;
    assert(-0x4_0000_0000_0000_0000_0000_0000 <= shifted * viewport
        <= 0x4_0000_0000_0000_0000_0000_0000) by (nonlinear_arith)
        requires
            -0x4_0000_0000_0000_0000 <= shifted <= 0x4_0000_0000_0000_0000,
            0 < viewport <= 0x8000_0000,
    ;
    let scaled: i128 = shifted * (viewport as i128);
    let span: i128 = 2 * (extent as i128);
    assert(-0x4_0000_0000_0000_0000_0000_0000 <= scaled / span
        <= 0x4_0000_0000_0000_0000_0000_0000) by (nonlinear_arith)
        requires
            -0x4_0000_0000_0000_0000_0000_0000 <= scaled <= 0x4_0000_0000_0000_0000_0000_0000,
            span >= 2,
    ;
    let pixel: i128 = scaled.checked_div_euclid(span).unwrap();
    if pixel < i32::MIN as i128 || pixel > i32::MAX as i128 {
        None
    } else {
        Some(pixel as i32)
    }
}

/// Maps between cursor positions on screen and points of the world.
pub struct CoordinateMapper;

impl CoordinateMapper {
    /// The world point under the cursor, if there is one.
    pub open spec fn world_point(cursor: ScreenCursor, camera: CameraState) -> Option<WorldPoint> {
        match cursor.position {
            Some(pixel) if !cursor.degenerate() => Some(
                WorldPoint {
                    x: axis_to_world(
                        pixel.x as int,
                        cursor.viewport_width as int,
                        camera.x as int,
                        camera.projection.width as int,
                    ) as i64,
                    y: axis_to_world(
                        pixel.y as int,
                        cursor.viewport_height as int,
                        camera.y as int,
                        camera.projection.height as int,
                    ) as i64,
                },
            ),
            _ => None,
        }
    }

    /// The pixel that shows a world point, if neither the viewport nor the
    /// projection is degenerate and the pixel can be represented.
    pub open spec fn screen_point(
        point: WorldPoint,
        camera: CameraState,
        viewport_width: i32,
        viewport_height: i32,
    ) -> Option<PixelPoint> {
        let x = axis_to_screen(
            point.x as int,
            viewport_width as int,
            camera.x as int,
            camera.projection.width as int,
        );
        let y = axis_to_screen(
            point.y as int,
            viewport_height as int,
            camera.y as int,
            camera.projection.height as int,
        );
        if viewport_width > 0 && viewport_height > 0 && !camera.projection.degenerate() && i32::MIN
            <= x <= i32::MAX && i32::MIN <= y <= i32::MAX {
            Some(PixelPoint { x: x as i32, y: y as i32 })
        } else {
            None
        }
    }

    /// The world point under the cursor, or `None` when the pointer is
    /// outside the window or the viewport is degenerate.
    ///
    /// The pixel position is normalized to `[-1, 1]` along each axis and
    /// carried through the inverse of the camera's view and projection.
    pub fn map_to_world(cursor: &ScreenCursor, camera: &CameraState) -> (point: Option<WorldPoint>)
        ensures
            point == Self::world_point(*cursor, *camera),
            point is None <==> cursor.absent() || cursor.degenerate(),
            point matches Some(p) ==> {
                &&& cursor.position matches Some(pixel)
                &&& p.x == axis_to_world(
                    pixel.x as int,
                    cursor.viewport_width as int,
                    camera.x as int,
                    camera.projection.width as int,
                )
                &&& p.y == axis_to_world(
                    pixel.y as int,
                    cursor.viewport_height as int,
                    camera.y as int,
                    camera.projection.height as int,
                )
            },
    {
        match cursor.position {
            None => None,
            Some(pixel) => {
                if cursor.viewport_width <= 0 || cursor.viewport_height <= 0 {
                    None
                } else {
                    let x = scale_axis(
                        pixel.x,
                        cursor.viewport_width,
                        camera.x,
                        camera.projection.width,
                    );
                    let y = scale_axis(
                        pixel.y,
                        cursor.viewport_height,
                        camera.y,
                        camera.projection.height,
                    );
                    Some(WorldPoint { x, y })
                }
            },
        }
    }

    /// The pixel at which the camera shows a world point: the forward
    /// projection that [`CoordinateMapper::map_to_world`] inverts.
    ///
    /// `None` when the viewport or the projection is degenerate, or the
    /// pixel lies beyond what a pixel coordinate can hold.
    pub fn world_to_screen(
        point: &WorldPoint,
        camera: &CameraState,
        viewport_width: i32,
        viewport_height: i32,
    ) -> (pixel: Option<PixelPoint>)
        ensures
            pixel == Self::screen_point(*point, *camera, viewport_width, viewport_height),
    {
        if viewport_width <= 0 || viewport_height <= 0 || camera.projection.width <= 0
            || camera.projection.height <= 0 {
            return None;
        }
        let x = project_axis(point.x, viewport_width, camera.x, camera.projection.width);
        let y = project_axis(point.y, viewport_height, camera.y, camera.projection.height);
        match (x, y) {
            (Some(x), Some(y)) => Some(PixelPoint { x, y }),
            _ => None,
        }
    }
}

/// Along one axis, mapping the pixel that a world coordinate projects to
/// gives that coordinate back, short by less than one unit plus the world
/// extent of one pixel, and never beyond it.
pub proof fn lemma_axis_round_trip(world: int, viewport: int, center: int, extent: int)
    requires
        viewport > 0,
        extent > 0,
    ensures
        ({
            let pixel = axis_to_screen(world, viewport, center, extent);
            let back = axis_to_world(pixel, viewport, center, extent);
            &&& back <= world
            &&& (world - back) * viewport < extent + viewport
        }),
{
    let pixel = axis_to_screen(world, viewport, center, extent);
    let back = axis_to_world(pixel, viewport, center, extent);
    let d = world - center;
    let q = back - center;
    let forward = (2 * d + extent) * viewport;
    let backward = (2 * pixel - viewport) * extent;
    vstd::arithmetic::div_mod::lemma_fundamental_div_mod(forward, 2 * extent);
    vstd::arithmetic::div_mod::lemma_mod_bound(forward, 2 * extent);
    vstd::arithmetic::div_mod::lemma_fundamental_div_mod(backward, 2 * viewport);
    vstd::arithmetic::div_mod::lemma_mod_bound(backward, 2 * viewport);
    assert(q <= d && (d - q) * viewport < extent + viewport) by (nonlinear_arith)
        requires
            viewport > 0,
            extent > 0,
            forward == (2 * d + extent) * viewport,
            backward == (2 * pixel - viewport) * extent,
            (2 * extent) * pixel <= forward < (2 * extent) * pixel + 2 * extent,
            (2 * viewport) * q <= backward < (2 * viewport) * q + 2 * viewport,
    ;
}

/// Round trip: when a world point projects to a pixel, mapping a cursor
/// at that pixel back to the world lands on the point again, within the
/// tolerance of the fixed-point grid. Along each axis the result is short
/// of the point by less than one unit plus the world extent of one pixel,
/// and never beyond it.
pub proof fn lemma_round_trip(
    point: WorldPoint,
    camera: CameraState,
    viewport_width: i32,
    viewport_height: i32,
)
    requires
        CoordinateMapper::screen_point(point, camera, viewport_width, viewport_height) is Some,
    ensures
        ({
            let pixel = CoordinateMapper::screen_point(
                point,
                camera,
                viewport_width,
                viewport_height,
            )->0;
            let cursor = ScreenCursor { position: Some(pixel), viewport_width, viewport_height };
            &&& CoordinateMapper::world_point(cursor, camera) matches Some(back)
            &&& back.x <= point.x
            &&& (point.x - back.x) * viewport_width < camera.projection.width + viewport_width
            &&& back.y <= point.y
            &&& (point.y - back.y) * viewport_height < camera.projection.height + viewport_height
        }),
{
    lemma_axis_round_trip(
        point.x as int,
        viewport_width as int,
        camera.x as int,
        camera.projection.width as int,
    );
    lemma_axis_round_trip(
        point.y as int,
        viewport_height as int,
        camera.y as int,
        camera.projection.height as int,
    );
    let pixel = CoordinateMapper::screen_point(point, camera, viewport_width, viewport_height)->0;
    lemma_axis_to_world_fits(pixel.x, viewport_width, camera.x, camera.projection.width);
    lemma_axis_to_world_fits(pixel.y, viewport_height, camera.y, camera.projection.height);
}

} // verus!

//! The drawing data model: surface coordinates held as millipixel
//! fixed-point values, points, pointer samples (`DrawEvent`), and the canvas
//! dimensions that drive the recentering transform between wire coordinates
//! (canvas-center relative) and surface coordinates (top-left relative).

use vstd::prelude::*;

verus! {

/// Largest coordinate magnitude, in millipixels, that the wire accepts.
pub const WIRE_COORD_LIMIT: i64 = 1_000_000_000_000_000;

/// Largest coordinate magnitude, in millipixels, a surface point may hold:
/// room for a wire coordinate plus any recentering offset.
pub const COORD_BOUND: i64 = 2_000_000_000_000_000;

/// One surface coordinate, in thousandths of a pixel. The wire carries
/// plain decimal numbers with at most three fractional digits, so every
/// value the protocol can name is held exactly.
#[derive(Clone, Copy, Debug, PartialEq, Eq, Structural)]
pub struct Coord {
    pub millis: i64,
}

impl Coord {
    /// The coordinate is within the surface bound.
    pub open spec fn wf(self) -> bool {
        -COORD_BOUND <= self.millis <= COORD_BOUND
    }

    /// The coordinate is small enough to ride the wire.
    pub open spec fn wire_ok(self) -> bool {
        -WIRE_COORD_LIMIT <= self.millis <= WIRE_COORD_LIMIT
    }

    /// A whole-pixel coordinate.
    pub fn from_pixels(px: i32) -> (c: Coord)
        ensures
            c.millis == px * 1000,
            c.wf(),
            c.wire_ok(),
    {
        Coord { millis: (px as i64) * 1000 }
    }
}

/// A point on the drawing surface, origin at the canvas top-left.
#[derive(Clone, Copy, Debug, PartialEq, Eq, Structural)]
pub struct Point {
    pub x: Coord,
    pub y: Coord,
}

impl Point {
    pub open spec fn wf(self) -> bool {
        self.x.wf() && self.y.wf()
    }

    pub open spec fn wire_ok(self) -> bool {
        self.x.wire_ok() && self.y.wire_ok()
    }

    /// A whole-pixel point.
    pub fn from_pixels(x: i32, y: i32) -> (p: Point)
        ensures
            p.x.millis == x * 1000,
            p.y.millis == y * 1000,
            p.wf(),
            p.wire_ok(),
    {
        Point { x: Coord::from_pixels(x), y: Coord::from_pixels(y) }
    }
}

/// One pointer sample: where the pointer is and whether it is pressed.
/// `pressed` continues or starts a stroke; `!pressed` ends one.
#[derive(Clone, Copy, Debug, PartialEq, Eq, Structural)]
pub struct DrawEvent {
    pub position: Point,
    pub pressed: bool,
}

impl DrawEvent {
    pub open spec fn wf(self) -> bool {
        self.position.wf()
    }
}

/// Width and height of the drawing surface, in whole pixels.
#[derive(Clone, Copy, Debug, PartialEq, Eq, Structural)]
pub struct CanvasDims {
    pub width: u32,
    pub height: u32,
}

impl CanvasDims {
    /// Half the canvas width, in millipixels: the x recentering offset.
    pub open spec fn spec_half_width_millis(self) -> int {
        self.width * 500
    }

    /// Half the canvas height, in millipixels: the y recentering offset.
    pub open spec fn spec_half_height_millis(self) -> int {
        self.height * 500
    }

    pub fn half_width_millis(&self) -> (r: i64)
        ensures
            r == self.spec_half_width_millis(),
    {
        (self.width as i64) * 500
    }

    pub fn half_height_millis(&self) -> (r: i64)
        ensures
            r == self.spec_half_height_millis(),
    {
        (self.height as i64) * 500
    }
}

/// A wire point translated into surface coordinates: the canvas center
/// becomes the origin offset.
pub open spec fn spec_recenter_in(p: Point, dims: CanvasDims) -> Point {
    Point {
        x: Coord { millis: (p.x.millis + dims.spec_half_width_millis()) as i64 },
        y: Coord { millis: (p.y.millis + dims.spec_half_height_millis()) as i64 },
    }
}

/// A surface point translated into wire coordinates: the inverse of
/// `spec_recenter_in`.
pub open spec fn spec_recenter_out(p: Point, dims: CanvasDims) -> Point {
    Point {
        x: Coord { millis: (p.x.millis - dims.spec_half_width_millis()) as i64 },
        y: Coord { millis: (p.y.millis - dims.spec_half_height_millis()) as i64 },
    }
}

/// Translate a surface point to wire coordinates before sending.
pub fn recenter_out(p: Point, dims: CanvasDims) -> (r: Point)
    requires
        p.wf(),
    ensures
        r == spec_recenter_out(p, dims),
        r.x.millis == p.x.millis - dims.spec_half_width_millis(),
        r.y.millis == p.y.millis - dims.spec_half_height_millis(),
{
    Point {
        x: Coord { millis: p.x.millis - dims.half_width_millis() },
        y: Coord { millis: p.y.millis - dims.half_height_millis() },
    }
}

/// The two recentering transforms cancel: what a peer sends from a surface
/// point comes back to that point on a canvas of the same dimensions.
pub proof fn lemma_recenter_round_trip(p: Point, dims: CanvasDims)
    requires
        p.wf(),
    ensures
        spec_recenter_in(spec_recenter_out(p, dims), dims) == p,
{
}

} // verus!

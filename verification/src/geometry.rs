use vstd::prelude::*;

verus! {

/// Largest coordinate a rectangle can take: `i32::MAX / 2`.
pub const MAX_COORDINATE: i32 = 1073741823;

/// Smallest coordinate a rectangle can take: `i32::MIN / 2`.
pub const MIN_COORDINATE: i32 = -1073741824;

/// Whether `v` lies in the range of `i32`.
pub open spec fn in_i32(v: int) -> bool {
    i32::MIN <= v <= i32::MAX
}

/// A coordinate forced into `[MIN_COORDINATE, MAX_COORDINATE]`, the range in
/// which the renderer keeps the corner of every rectangle.
pub open spec fn clamped(v: int) -> int {
    if v > MAX_COORDINATE {
        MAX_COORDINATE as int
    } else if v < MIN_COORDINATE {
        MIN_COORDINATE as int
    } else {
        v
    }
}

/// A side length forced into `[1, MAX_COORDINATE]`: a rectangle is never empty.
pub open spec fn clamped_size(v: int) -> int {
    if v == 0 {
        1
    } else if v > MAX_COORDINATE {
        MAX_COORDINATE as int
    } else {
        v
    }
}

/// Clamps a coordinate the way the renderer's rectangles do.
pub fn clamp_position(v: i32) -> (r: i32)
    ensures
        r == clamped(v as int),
{
    if v > MAX_COORDINATE {
        MAX_COORDINATE
    } else if v < MIN_COORDINATE {
        MIN_COORDINATE
    } else {
        v
    }
}

/// Clamps a side length the way the renderer's rectangles do.
pub fn clamp_size(v: u32) -> (r: u32)
    ensures
        r == clamped_size(v as int),
{
    if v == 0 {
        1
    } else if v > MAX_COORDINATE as u32 {
        MAX_COORDINATE as u32
    } else {
        v
    }
}

/// The body of a vehicle on screen: an axis-aligned rectangle whose corner
/// and sides are kept in the ranges the renderer accepts.
#[derive(Debug, Clone, Copy, PartialEq, Eq, Structural)]
pub struct Rect {
    pub x: i32,
    pub y: i32,
    pub width: u32,
    pub height: u32,
}

impl Rect {
    /// A rectangle at `(x, y)` of the given size, each value clamped.
    pub fn new(x: i32, y: i32, width: u32, height: u32) -> (r: Rect)
        ensures
            r.x == clamped(x as int),
            r.y == clamped(y as int),
            r.width == clamped_size(width as int),
            r.height == clamped_size(height as int),
    {
        Rect {
            x: clamp_position(x),
            y: clamp_position(y),
            width: clamp_size(width),
            height: clamp_size(height),
        }
    }

    /// Moves the left edge to `x`, clamped.
    pub fn set_x(&mut self, x: i32)
        ensures
            *final(self) == (Rect { x: clamped(x as int) as i32, ..*old(self) }),
    {
        self.x = clamp_position(x);
    }

    /// Moves the top edge to `y`, clamped.
    pub fn set_y(&mut self, y: i32)
        ensures
            *final(self) == (Rect { y: clamped(y as int) as i32, ..*old(self) }),
    {
        self.y = clamp_position(y);
    }
}

/// The integer square root: the largest `r` with `r * r <= n`.
pub open spec fn is_floor_sqrt(n: int, r: int) -> bool {
    0 <= r && r * r <= n < (r + 1) * (r + 1)
}

/// The integer square root of `n`, found by bisection.
pub fn floor_sqrt(n: u32) -> (r: u32)
    ensures
        is_floor_sqrt(n as int, r as int),
{
    let mut lo: u64 = 0;
    let mut hi: u64 = 65536;
    assert(65536 * 65536 > u32::MAX) by (nonlinear_arith);
    while hi - lo > 1
        invariant
            lo < hi <= 65536,
            lo * lo <= n,
            n < hi * hi,
        decreases hi - lo,
    {
        let mid: u64 = lo + (hi - lo) / 2;
        assert(mid * mid <= 65536 * 65536) by (nonlinear_arith)
            requires
                mid <= 65536,
        ;
        if mid * mid <= n as u64 {
            lo = mid;
        } else {
            hi = mid;
        }
    }
    assert(hi == lo + 1);
    lo as u32
}

} // verus!

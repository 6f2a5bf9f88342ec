use vstd::prelude::*;
use crate::geometry::{floor_sqrt, in_i32, is_floor_sqrt};

verus! {

/// Length of one dash of a lane separator, in pixels.
pub const DASH_LENGTH: i32 = 10;

/// Length of the gap between two dashes, in pixels.
pub const GAP_LENGTH: i32 = 10;

/// A straight line from `(x1, y1)` to `(x2, y2)`.
#[derive(Debug, Clone, Copy, PartialEq, Eq, Structural)]
pub struct Line {
    pub x1: i32,
    pub y1: i32,
    pub x2: i32,
    pub y2: i32,
}

/// `a / b` rounded towards zero, for `b > 0`.
pub open spec fn div_toward_zero(a: int, b: int) -> int {
    if a >= 0 {
        a / b
    } else {
        -((-a) / b)
    }
}

/// The square root of `n`, rounded down.
pub open spec fn floor_sqrt_of(n: int) -> int {
    choose|r: int| is_floor_sqrt(n, r)
}

/// The rounded-down square root is unique.
pub proof fn lemma_floor_sqrt_unique(n: int, r: int)
    requires
        is_floor_sqrt(n, r),
    ensures
        floor_sqrt_of(n) == r,
{
    let s = floor_sqrt_of(n);
    assert(is_floor_sqrt(n, s));
    if s < r {
        assert((s + 1) * (s + 1) <= r * r) by (nonlinear_arith)
            requires
                0 <= s + 1 <= r,
        ;
    } else if r < s {
        assert((r + 1) * (r + 1) <= s * s) by (nonlinear_arith)
            requires
                0 <= r + 1 <= s,
        ;
    }
}

/// The length of a line, rounded down.
pub open spec fn line_length(x1: int, y1: int, x2: int, y2: int) -> int {
    floor_sqrt_of((x2 - x1) * (x2 - x1) + (y2 - y1) * (y2 - y1))
}

/// How many dashes a line of `length` pixels has: one per dash and gap.
pub open spec fn dash_count(length: int) -> int {
    length / (DASH_LENGTH + GAP_LENGTH) as int
}

/// The first point of dash `i` of a line, before any rounding to `i32`.
pub open spec fn dash_start(x1: int, y1: int, x2: int, y2: int, i: int) -> (int, int) {
    let length = line_length(x1, y1, x2, y2);
    let along = i * (DASH_LENGTH + GAP_LENGTH);
    (
        x1 + div_toward_zero(along * (x2 - x1), length),
        y1 + div_toward_zero(along * (y2 - y1), length),
    )
}

/// The last point of dash `i` of a line, before any rounding to `i32`.
pub open spec fn dash_end(x1: int, y1: int, x2: int, y2: int, i: int) -> (int, int) {
    let length = line_length(x1, y1, x2, y2);
    let (sx, sy) = dash_start(x1, y1, x2, y2, i);
    (
        sx + div_toward_zero(DASH_LENGTH * (x2 - x1), length),
        sy + div_toward_zero(DASH_LENGTH * (y2 - y1), length),
    )
}

/// Dash `i` of the dashed line from `(x1, y1)` to `(x2, y2)`: it starts
/// `i` dash-and-gap lengths along the line and is one dash long, each
/// coordinate rounded towards the line's start.
pub open spec fn dash(x1: int, y1: int, x2: int, y2: int, i: int) -> Line {
    let (sx, sy) = dash_start(x1, y1, x2, y2, i);
    let (ex, ey) = dash_end(x1, y1, x2, y2, i);
    Line { x1: sx as i32, y1: sy as i32, x2: ex as i32, y2: ey as i32 }
}

/// Whether the dashes of the line from `(x1, y1)` to `(x2, y2)` can be
/// computed inside `i32`: the line's extent, the sum of the squares of its
/// sides, and the corners of every dash.
pub open spec fn dashes_fit(x1: int, y1: int, x2: int, y2: int) -> bool {
    &&& in_i32(x2 - x1)
    &&& in_i32(y2 - y1)
    &&& (x2 - x1) * (x2 - x1) + (y2 - y1) * (y2 - y1) <= i32::MAX
    &&& forall|i: int|
        0 <= i < dash_count(line_length(x1, y1, x2, y2)) ==> {
            &&& in_i32(#[trigger] dash_start(x1, y1, x2, y2, i).0)
            &&& in_i32(dash_start(x1, y1, x2, y2, i).1)
            &&& in_i32(dash_end(x1, y1, x2, y2, i).0)
            &&& in_i32(dash_end(x1, y1, x2, y2, i).1)
        }
}

/// Along a line of rounded-down length `length >= 20` whose sides are `dx`
/// and `dy`, the products that place a dash stay inside `i32`.
proof fn lemma_dash_products(dx: int, dy: int, length: int, i: int)
    requires
        is_floor_sqrt(dx * dx + dy * dy, length),
        dx * dx + dy * dy <= i32::MAX,
        0 <= i,
        i * 20 + 20 <= length,
    ensures
        in_i32(i * 20),
        in_i32(i * 20 * dx),
        in_i32(i * 20 * dy),
        in_i32(10 * dx),
        in_i32(10 * dy),
{
    assert(dx * dx >= 0 && dy * dy >= 0) by (nonlinear_arith);
    assert(dx * dx <= length * length + 2 * length) by (nonlinear_arith)
        requires
            dx * dx + dy * dy < (length + 1) * (length + 1),
            dy * dy >= 0,
    ;
    assert(-length <= dx <= length) by (nonlinear_arith)
        requires
            dx * dx <= length * length + 2 * length,
            length >= 0,
    ;
    assert(dy * dy <= length * length + 2 * length) by (nonlinear_arith)
        requires
            dx * dx + dy * dy < (length + 1) * (length + 1),
            dx * dx >= 0,
    ;
    assert(-length <= dy <= length) by (nonlinear_arith)
        requires
            dy * dy <= length * length + 2 * length,
            length >= 0,
    ;
    assert(length * length <= i32::MAX);
    assert(length <= 46341) by (nonlinear_arith)
        requires
            length * length <= i32::MAX,
    ;
    assert(-(length * length) <= i * 20 * dx <= length * length) by (nonlinear_arith)
        requires
            -length <= dx <= length,
            0 <= i * 20 <= length,
    ;
    assert(-(length * length) <= i * 20 * dy <= length * length) by (nonlinear_arith)
        requires
            -length <= dy <= length,
            0 <= i * 20 <= length,
    ;
    assert(-(length * length) <= 10 * dx <= length * length) by (nonlinear_arith)
        requires
            -length <= dx <= length,
            10 <= length,
    ;
    assert(-(length * length) <= 10 * dy <= length * length) by (nonlinear_arith)
        requires
            -length <= dy <= length,
            10 <= length,
    ;
}

/// The dashes of a dashed line from `(x1, y1)` to `(x2, y2)`, from its
/// start on: one dash of `DASH_LENGTH` every `DASH_LENGTH + GAP_LENGTH`
/// pixels of the line's length rounded down (see [`dash`]).
///
/// The rounded-down length is the integer square root of the sum of the
/// squares of the sides; for sums inside `i32` it equals the square root
/// computed in double precision and truncated.
pub fn dashed_line(x1: i32, y1: i32, x2: i32, y2: i32) -> (dashes: Vec<Line>)
    requires
        dashes_fit(x1 as int, y1 as int, x2 as int, y2 as int),
    ensures
        dashes@.len() == dash_count(line_length(x1 as int, y1 as int, x2 as int, y2 as int)),
        forall|i: int|
            0 <= i < dashes@.len() ==> #[trigger] dashes@[i] == dash(
                x1 as int,
                y1 as int,
                x2 as int,
                y2 as int,
                i,
            ),
{
    let dx: i32 = x2 - x1;
    let dy: i32 = y2 - y1;
    assert(0 <= dx * dx && 0 <= dy * dy) by (nonlinear_arith);
    let squared: i32 = dx * dx + dy * dy;
    let root: u32 = floor_sqrt(squared as u32);
    assert(root <= 46341) by (nonlinear_arith)
        requires
            root * root <= i32::MAX,
    ;
    let length: i32 = root as i32;
    proof {
        lemma_floor_sqrt_unique(squared as int, length as int);
    }
    let dashes: i32 = length / (DASH_LENGTH + GAP_LENGTH);
    let mut out: Vec<Line> = Vec::new();
    for i in 0..dashes
        invariant
            dx == x2 - x1,
            dy == y2 - y1,
            squared == dx * dx + dy * dy,
            is_floor_sqrt(squared as int, length as int),
            length == line_length(x1 as int, y1 as int, x2 as int, y2 as int),
            dashes == dash_count(length as int),
            dashes_fit(x1 as int, y1 as int, x2 as int, y2 as int),
            out@.len() == i,
            forall|j: int|
                0 <= j < i ==> #[trigger] out@[j] == dash(
                    x1 as int,
                    y1 as int,
                    x2 as int,
                    y2 as int,
                    j,
                ),
    {
        proof {
            lemma_dash_products(dx as int, dy as int, length as int, i as int);
            assert(in_i32(dash_start(x1 as int, y1 as int, x2 as int, y2 as int, i as int).0));
        }
        let start_x: i32 = x1 + i * (DASH_LENGTH + GAP_LENGTH) * dx / length;
        let start_y: i32 = y1 + i * (DASH_LENGTH + GAP_LENGTH) * dy / length;
        let end_x: i32 = start_x + DASH_LENGTH * dx / length;
        let end_y: i32 = start_y + DASH_LENGTH * dy / length;
        out.push(Line { x1: start_x, y1: start_y, x2: end_x, y2: end_y });
    }
    out
}

/// Scaling `d` by a fraction `m / length` of at most one, rounding towards
/// zero, does not make it larger.
proof fn lemma_scaled_within(m: int, d: int, length: int)
    requires
        0 <= m <= length,
        length > 0,
    ensures
        -d <= div_toward_zero(m * d, length) <= d || d <= div_toward_zero(m * d, length) <= -d,
{
    if d >= 0 {
        assert(0 <= m * d <= length * d) by (nonlinear_arith)
            requires
                0 <= m <= length,
                d >= 0,
        ;
        vstd::arithmetic::div_mod::lemma_div_is_ordered(m * d, length * d, length);
        vstd::arithmetic::div_mod::lemma_div_multiples_vanish(d, length);
        vstd::arithmetic::div_mod::lemma_div_pos_is_pos(m * d, length);
    } else {
        assert(0 <= -(m * d) <= length * (-d)) by (nonlinear_arith)
            requires
                0 <= m <= length,
                d < 0,
        ;
        vstd::arithmetic::div_mod::lemma_div_is_ordered(-(m * d), length * (-d), length);
        vstd::arithmetic::div_mod::lemma_div_multiples_vanish(-d, length);
        vstd::arithmetic::div_mod::lemma_div_pos_is_pos(-(m * d), length);
    }
}

/// A line between points with coordinates in `[0, 10000]` can be dashed
/// inside `i32`.
pub proof fn lemma_dashes_fit_on_map(x1: int, y1: int, x2: int, y2: int)
    requires
        0 <= x1 <= 10000,
        0 <= y1 <= 10000,
        0 <= x2 <= 10000,
        0 <= y2 <= 10000,
    ensures
        dashes_fit(x1, y1, x2, y2),
{
    let dx = x2 - x1;
    let dy = y2 - y1;
    assert(dx * dx <= 100000000 && dy * dy <= 100000000) by (nonlinear_arith)
        requires
            -10000 <= dx <= 10000,
            -10000 <= dy <= 10000,
    ;
    assert(dx * dx >= 0 && dy * dy >= 0) by (nonlinear_arith);
    let length = line_length(x1, y1, x2, y2);
    assert forall|i: int| 0 <= i < dash_count(length) implies {
        &&& in_i32(#[trigger] dash_start(x1, y1, x2, y2, i).0)
        &&& in_i32(dash_start(x1, y1, x2, y2, i).1)
        &&& in_i32(dash_end(x1, y1, x2, y2, i).0)
        &&& in_i32(dash_end(x1, y1, x2, y2, i).1)
    } by {
        assert(i * 20 + 20 <= length);
        lemma_scaled_within(i * 20, dx, length);
        lemma_scaled_within(i * 20, dy, length);
        lemma_scaled_within(10, dx, length);
        lemma_scaled_within(10, dy, length);
    }
}

/// The two solid centre lines: the north-south road along `x = 400` and
/// the east-west road along `y = 400`, across the whole map.
pub open spec fn centre_lines_spec() -> Seq<Line> {
    seq![Line { x1: 400, y1: 0, x2: 400, y2: 800 }, Line { x1: 0, y1: 400, x2: 800, y2: 400 }]
}

/// The solid centre lines (see [`centre_lines_spec`]).
pub fn centre_lines() -> (lines: Vec<Line>)
    ensures
        lines@ == centre_lines_spec(),
{
    let mut lines: Vec<Line> = Vec::new();
    lines.push(Line { x1: 400, y1: 0, x2: 400, y2: 800 });
    lines.push(Line { x1: 0, y1: 400, x2: 800, y2: 400 });
    lines
}

/// The number of lane separators on each of the four approaches.
pub const SEPARATORS_PER_SIDE: usize = 7;

/// Lane separator `k` of the 28: the separators at `250, 300, .., 550` of
/// the northern approach, then of the southern, western and eastern ones,
/// each running from the map's edge to the crossing.
pub open spec fn lane_separator(k: int) -> Line {
    let side = k / 7;
    let at = (250 + 50 * (k % 7)) as i32;
    if side == 0 {
        Line { x1: at, y1: 0, x2: at, y2: 275 }
    } else if side == 1 {
        Line { x1: at, y1: 550, x2: at, y2: 850 }
    } else if side == 2 {
        Line { x1: 0, y1: at, x2: 275, y2: at }
    } else {
        Line { x1: 550, y1: at, x2: 850, y2: at }
    }
}

/// The dashes of lane separator `k`.
pub open spec fn separator_dashes(k: int) -> Seq<Line> {
    let l = lane_separator(k);
    Seq::new(
        dash_count(line_length(l.x1 as int, l.y1 as int, l.x2 as int, l.y2 as int)) as nat,
        |i: int| dash(l.x1 as int, l.y1 as int, l.x2 as int, l.y2 as int, i),
    )
}

/// The lane separators, in the order of [`lane_separator`].
pub fn lane_separators() -> (lines: Vec<Line>)
    ensures
        lines@.len() == 4 * SEPARATORS_PER_SIDE,
        forall|k: int| 0 <= k < lines@.len() ==> #[trigger] lines@[k] == lane_separator(k),
{
    let mut lines: Vec<Line> = Vec::new();
    for side in 0..4usize
        invariant
            lines@.len() == side * 7,
            forall|k: int| 0 <= k < lines@.len() ==> #[trigger] lines@[k] == lane_separator(k),
    {
        for j in 0..SEPARATORS_PER_SIDE
            invariant
                side < 4,
                lines@.len() == side * 7 + j,
                forall|k: int| 0 <= k < lines@.len() ==> #[trigger] lines@[k] == lane_separator(k),
        {
            let at: i32 = 250 + 50 * j as i32;
            let line = if side == 0 {
                Line { x1: at, y1: 0, x2: at, y2: 275 }
            } else if side == 1 {
                Line { x1: at, y1: 550, x2: at, y2: 850 }
            } else if side == 2 {
                Line { x1: 0, y1: at, x2: 275, y2: at }
            } else {
                Line { x1: 550, y1: at, x2: 850, y2: at }
            };
            proof {
                let k = (side * 7 + j) as int;
                assert(k / 7 == side as int && k % 7 == j as int);
            }
            lines.push(line);
        }
    }
    lines
}

/// The dashes of every lane separator, one list per separator in the order
/// of [`lane_separator`].
pub fn road_dashes() -> (dashes: Vec<Vec<Line>>)
    ensures
        dashes@.len() == 4 * SEPARATORS_PER_SIDE,
        forall|k: int| 0 <= k < dashes@.len() ==> #[trigger] dashes@[k]@ == separator_dashes(k),
{
    let separators = lane_separators();
    let mut dashes: Vec<Vec<Line>> = Vec::new();
    for k in 0..separators.len()
        invariant
            separators@.len() == 4 * SEPARATORS_PER_SIDE,
            forall|m: int| 0 <= m < separators@.len() ==> #[trigger] separators@[m] == lane_separator(m),
            dashes@.len() == k,
            forall|m: int| 0 <= m < k ==> #[trigger] dashes@[m]@ == separator_dashes(m),
    {
        let l = separators[k];
        proof {
            assert(l == lane_separator(k as int));
            lemma_dashes_fit_on_map(l.x1 as int, l.y1 as int, l.x2 as int, l.y2 as int);
        }
        let line_dashes = dashed_line(l.x1, l.y1, l.x2, l.y2);
        assert(line_dashes@ =~= separator_dashes(k as int));
        dashes.push(line_dashes);
    }
    dashes
}

/// Rounding down two quotients separately gives at most the rounded-down
/// quotient of the sum.
proof fn lemma_floor_sum(a: int, b: int, length: int)
    requires
        a >= 0,
        b >= 0,
        length > 0,
    ensures
        a / length + b / length <= (a + b) / length,
{
    vstd::arithmetic::div_mod::lemma_fundamental_div_mod(a, length);
    vstd::arithmetic::div_mod::lemma_fundamental_div_mod(b, length);
    vstd::arithmetic::div_mod::lemma_fundamental_div_mod(a + b, length);
    let fa = a / length;
    let fb = b / length;
    let q = (a + b) / length;
    assert(fa + fb <= q) by (nonlinear_arith)
        requires
            a == length * fa + a % length,
            b == length * fb + b % length,
            a + b == length * q + (a + b) % length,
            0 <= a % length,
            0 <= b % length,
            (a + b) % length < length,
            length > 0,
    ;
}

/// Every dash of a line drawn rightwards and downwards lies on the line,
/// between its two ends.
pub proof fn lemma_dash_within_line(x1: int, y1: int, x2: int, y2: int, i: int)
    requires
        x1 <= x2,
        y1 <= y2,
        0 <= i < dash_count(line_length(x1, y1, x2, y2)),
    ensures
        ({
            let (sx, sy) = dash_start(x1, y1, x2, y2, i);
            let (ex, ey) = dash_end(x1, y1, x2, y2, i);
            &&& x1 <= sx <= ex <= x2
            &&& y1 <= sy <= ey <= y2
        }),
{
    let dx = x2 - x1;
    let dy = y2 - y1;
    let length = line_length(x1, y1, x2, y2);
    let along = i * 20;
    assert(along + 10 <= length);
    assert(0 <= along * dx && 0 <= along * dy && 0 <= 10 * dx && 0 <= 10 * dy) by (nonlinear_arith)
        requires
            along >= 0,
            dx >= 0,
            dy >= 0,
    ;
    lemma_floor_sum(along * dx, 10 * dx, length);
    lemma_floor_sum(along * dy, 10 * dy, length);
    assert(along * dx + 10 * dx == (along + 10) * dx) by (nonlinear_arith);
    assert(along * dy + 10 * dy == (along + 10) * dy) by (nonlinear_arith);
    lemma_scaled_within(along + 10, dx, length);
    lemma_scaled_within(along + 10, dy, length);
    vstd::arithmetic::div_mod::lemma_div_pos_is_pos(along * dx, length);
    vstd::arithmetic::div_mod::lemma_div_pos_is_pos(along * dy, length);
    vstd::arithmetic::div_mod::lemma_div_pos_is_pos(10 * dx, length);
    vstd::arithmetic::div_mod::lemma_div_pos_is_pos(10 * dy, length);
}

} // verus!

//! Geometry kernel over the fixed 1920x1080 logical world rectangle, in
//! milli-units. Directions come in as a (sine, cosine) pair in micro-units;
//! the host computes the two trigonometric values, everything else is exact
//! integer arithmetic here.

use vstd::prelude::*;

verus! {

/// Half-width of the judge band around a note, in milli-units.
pub const JUDGE_WIDTH_MILLI: i64 = 300_000;
/// Scale of direction components: sine and cosine are in [-SCALE, SCALE].
pub const SCALE_MICRO: i64 = 1_000_000;
/// Largest coordinate magnitude the geometry accepts, in milli-units.
pub const COORD_MAX: i64 = 2_000_000_000;
/// Largest distance magnitude accepted by [`get_pos_out_of_line`].
pub const DISTANCE_MAX: i64 = 200_000_000;

/// A point of the logical world, in milli-units.
#[derive(Clone, Copy, PartialEq, Eq, Structural, Debug)]
pub struct Point {
    pub x: i64,
    pub y: i64,
}

/// Quotient of `a / b` rounded towards zero (`b > 0`).
pub open spec fn spec_div_trunc(a: int, b: int) -> int {
    if a >= 0 {
        a / b
    } else {
        -((-a) / b)
    }
}

/// Executable truncating division for a positive divisor.
pub fn div_trunc(a: i64, b: i64) -> (r: i64)
    requires
        b > 0,
        a > i64::MIN,
    ensures
        r == spec_div_trunc(a as int, b as int),
        a >= 0 ==> 0 <= r <= a,
        a < 0 ==> a <= r <= 0,
{
    if a >= 0 {
        proof {
            vstd::arithmetic::div_mod::lemma_div_pos_is_pos(a as int, b as int);
            vstd::arithmetic::div_mod::lemma_div_nonincreasing(a as int, b as int);
        }
        a / b
    } else {
        proof {
            vstd::arithmetic::div_mod::lemma_div_pos_is_pos(-(a as int), b as int);
            vstd::arithmetic::div_mod::lemma_div_nonincreasing(-(a as int), b as int);
        }
        -((-a) / b)
    }
}

/// Specification form of [`fix_degree`]: the representative of an angle in
/// [0, 360_000) milli-degrees.
pub open spec fn spec_fix_degree(d: int) -> int
    decreases
            (if d < 0 {
                360_000 - d
            } else {
                d
            }),
{
    if d < 0 {
        spec_fix_degree(d + 360_000)
    } else if d >= 360_000 {
        spec_fix_degree(d - 360_000)
    } else {
        d
    }
}

/// Normalizes an angle in milli-degrees into [0, 360_000) by repeatedly
/// adding or subtracting full turns, exactly as many as needed; a whole
/// multiple of a full turn maps to zero.
pub fn fix_degree(any_degree: i64) -> (r: i64)
    requires
        -2_000_000_000_000 <= any_degree <= 2_000_000_000_000,
    ensures
        r == spec_fix_degree(any_degree as int),
        0 <= r < 360_000,
        (r - any_degree) % 360_000int == 0,
        0 <= any_degree < 360_000 ==> r == any_degree,
    decreases
            (if any_degree < 0 {
                360_000 - any_degree
            } else {
                any_degree as int
            }),
{
    if any_degree < 0 {
        let r = fix_degree(any_degree + 360_000);
        proof {
            vstd::arithmetic::div_mod::lemma_mod_add_multiples_vanish(
                r - any_degree - 360_000,
                360_000int,
            );
        }
        r
    } else if any_degree >= 360_000 {
        let r = fix_degree(any_degree - 360_000);
        proof {
            vstd::arithmetic::div_mod::lemma_mod_sub_multiples_vanish(
                r - any_degree + 360_000,
                360_000int,
            );
        }
        r
    } else {
        any_degree
    }
}

/// Executable truncating division on `i128` for a positive divisor; used
/// where an intermediate product does not fit `i64`.
pub fn div_trunc_i128(a: i128, b: i128) -> (r: i128)
    requires
        b > 0,
        a > i128::MIN,
    ensures
        r == spec_div_trunc(a as int, b as int),
        a >= 0 ==> 0 <= r <= a,
        a < 0 ==> a <= r <= 0,
{
    if a >= 0 {
        proof {
            vstd::arithmetic::div_mod::lemma_div_pos_is_pos(a as int, b as int);
            vstd::arithmetic::div_mod::lemma_div_nonincreasing(a as int, b as int);
        }
        a / b
    } else {
        proof {
            vstd::arithmetic::div_mod::lemma_div_pos_is_pos(-(a as int), b as int);
            vstd::arithmetic::div_mod::lemma_div_nonincreasing(-(a as int), b as int);
        }
        -((-a) / b)
    }
}

/// A note's lane offset along its line, in milli-units: the lane unit is
/// 1920/18 world units, so milli-lane-units scale by 320/3.
pub open spec fn spec_lane_offset(position_x: i64) -> int {
    spec_div_trunc(position_x * 320, 3)
}

/// Executable form of [`spec_lane_offset`].
pub fn lane_offset(position_x: i64) -> (r: i64)
    requires
        -crate::chart::POSITION_MAX <= position_x <= crate::chart::POSITION_MAX,
    ensures
        r == spec_lane_offset(position_x),
        -107_000_000 <= r <= 107_000_000,
{
    div_trunc(position_x * 320, 3)
}

/// The point at signed `distance` from `(x, y)` along the direction whose
/// sine and cosine are given in micro-units; each component is rounded
/// towards zero.
pub open spec fn spec_point_at_offset(
    x: i64,
    y: i64,
    sin_micro: i64,
    cos_micro: i64,
    distance: i64,
) -> (int, int) {
    (
        x + spec_div_trunc(cos_micro * distance, SCALE_MICRO as int),
        y + spec_div_trunc(sin_micro * distance, SCALE_MICRO as int),
    )
}

/// Point at a signed distance along a direction from a line anchor; used for
/// a note's root on its line and, by the renderer, for scroll offsets.
pub fn get_pos_out_of_line(
    line_x: i64,
    line_y: i64,
    sin_micro: i64,
    cos_micro: i64,
    distance: i64,
) -> (p: Point)
    requires
        -COORD_MAX <= line_x <= COORD_MAX,
        -COORD_MAX <= line_y <= COORD_MAX,
        -SCALE_MICRO <= sin_micro <= SCALE_MICRO,
        -SCALE_MICRO <= cos_micro <= SCALE_MICRO,
        -DISTANCE_MAX <= distance <= DISTANCE_MAX,
    ensures
        (p.x as int, p.y as int) == spec_point_at_offset(
            line_x,
            line_y,
            sin_micro,
            cos_micro,
            distance,
        ),
        -COORD_MAX - DISTANCE_MAX <= p.x <= COORD_MAX + DISTANCE_MAX,
        -COORD_MAX - DISTANCE_MAX <= p.y <= COORD_MAX + DISTANCE_MAX,
{
    proof {
        lemma_scaled_component_bound(cos_micro as int, distance as int);
        lemma_scaled_component_bound(sin_micro as int, distance as int);
    }
    let da = div_trunc(cos_micro * distance, SCALE_MICRO);
    let db = div_trunc(sin_micro * distance, SCALE_MICRO);
    Point { x: line_x + da, y: line_y + db }
}

/// The component along the direction `(cos, sin)` of the vector from the
/// root point to the query point, scaled by `SCALE_MICRO`.
pub open spec fn spec_band_offset(
    root_x: int,
    root_y: int,
    sin_micro: int,
    cos_micro: int,
    point_x: int,
    point_y: int,
) -> int {
    (point_x - root_x) * cos_micro + (point_y - root_y) * sin_micro
}

/// Whether the query point lies within `judge_width` of the root, measured
/// along the line's direction (the perpendicular offset is ignored, as a
/// falling note meets the line anywhere across it).
pub fn is_point_in_judge_range(
    root_x: i64,
    root_y: i64,
    sin_micro: i64,
    cos_micro: i64,
    point_x: i64,
    point_y: i64,
    judge_width: i64,
) -> (r: bool)
    requires
        -COORD_MAX - DISTANCE_MAX <= root_x <= COORD_MAX + DISTANCE_MAX,
        -COORD_MAX - DISTANCE_MAX <= root_y <= COORD_MAX + DISTANCE_MAX,
        -COORD_MAX <= point_x <= COORD_MAX,
        -COORD_MAX <= point_y <= COORD_MAX,
        -SCALE_MICRO <= sin_micro <= SCALE_MICRO,
        -SCALE_MICRO <= cos_micro <= SCALE_MICRO,
        0 <= judge_width <= 1_000_000_000,
    ensures
        r == {
            let dot = spec_band_offset(
                root_x as int,
                root_y as int,
                sin_micro as int,
                cos_micro as int,
                point_x as int,
                point_y as int,
            );
            -(judge_width * SCALE_MICRO) <= dot <= judge_width * SCALE_MICRO
        },
{
    let dx: i64 = point_x - root_x;
    let dy: i64 = point_y - root_y;
    proof {
        lemma_dot_component_bound(dx as int, cos_micro as int);
        lemma_dot_component_bound(dy as int, sin_micro as int);
    }
    let dot: i64 = dx * cos_micro + dy * sin_micro;
    let threshold: i64 = judge_width * SCALE_MICRO;
    -threshold <= dot && dot <= threshold
}

/// The product of a coordinate difference and a micro-scaled direction
/// component stays inside `i64`.
proof fn lemma_dot_component_bound(d: int, t: int)
    requires
        -5_000_000_000 <= d <= 5_000_000_000,
        -(SCALE_MICRO as int) <= t <= SCALE_MICRO as int,
    ensures
        -5_000_000_000_000_000 <= d * t <= 5_000_000_000_000_000,
{
    assert(-5_000_000_000_000_000 <= d * t <= 5_000_000_000_000_000) by (nonlinear_arith)
        requires
            -5_000_000_000 <= d <= 5_000_000_000,
            -1_000_000 <= t <= 1_000_000,
    ;
}

/// The scaled component `(t * distance) / SCALE` stays within the distance
/// bound.
proof fn lemma_scaled_component_bound(t: int, distance: int)
    requires
        -(SCALE_MICRO as int) <= t <= SCALE_MICRO as int,
        -(DISTANCE_MAX as int) <= distance <= DISTANCE_MAX as int,
    ensures
        -(DISTANCE_MAX as int) <= spec_div_trunc(t * distance, SCALE_MICRO as int)
            <= DISTANCE_MAX as int,
        -200_000_000_000_000 <= t * distance <= 200_000_000_000_000,
{
    assert(-200_000_000_000_000 <= t * distance <= 200_000_000_000_000) by (nonlinear_arith)
        requires
            -1_000_000 <= t <= 1_000_000,
            -200_000_000 <= distance <= 200_000_000,
    ;
    let p = t * distance;
    vstd::arithmetic::div_mod::lemma_div_by_multiple(200_000_000, 1_000_000);
    if p >= 0 {
        vstd::arithmetic::div_mod::lemma_div_is_ordered(p, 200_000_000_000_000, 1_000_000);
        vstd::arithmetic::div_mod::lemma_div_pos_is_pos(p, 1_000_000);
    } else {
        vstd::arithmetic::div_mod::lemma_div_is_ordered(-p, 200_000_000_000_000, 1_000_000);
        vstd::arithmetic::div_mod::lemma_div_pos_is_pos(-p, 1_000_000);
    }
    assert(200_000_000int * 1_000_000 == 200_000_000_000_000) by (nonlinear_arith);
}

} // verus!

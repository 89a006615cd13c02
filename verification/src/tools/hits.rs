//! What hit tests are for: a point is near a segment if and only if it is near a
//! point of it, and the handle that is found is the nearest one. Coordinates are
//! fixed-point numbers here.
use vstd::prelude::*;

use crate::fixed::{integer_root, lemma_integer_root, Fixed};
use crate::math::{Scalar, Vec2D};
use crate::tools::edit::{
    handle_in_reach, is_closest, lemma_closest_unique, spec_closest_handle,
    spec_point_near_segment, spec_resize_box, EditHandle, ObjectBounds,
};
use crate::tools::line::Line;
use crate::tools::Drawable;

verus! {

/// Both coordinates are less than `limit` steps away from zero.
pub open spec fn moderate(v: Vec2D<Fixed>, limit: int) -> bool {
    &&& -limit < v.x.raw < limit
    &&& -limit < v.y.raw < limit
}

pub open spec fn magnitude(n: int) -> int {
    if n < 0 {
        -n
    } else {
        n
    }
}

/// The point that lies a part `t` of the way from `start` to `end`.
pub open spec fn point_of_segment(start: Vec2D<Fixed>, end: Vec2D<Fixed>, t: Fixed) -> Vec2D<
    Fixed,
> {
    start.spec_plus(end.spec_minus(start).spec_times(t))
}

/// `t` is a part of a whole.
pub open spec fn is_part(t: Fixed) -> bool {
    0 <= t.raw <= 64
}

/// A part of a length is no longer than the length.
proof fn lemma_part_of_length(s: int, t: int)
    requires
        0 <= t <= 64,
    ensures
        -magnitude(s) <= (s * t) / 64 <= magnitude(s),
{
    assert(-magnitude(s) * 64 <= s * t <= magnitude(s) * 64) by (nonlinear_arith)
        requires
            0 <= t <= 64,
            magnitude(s) == s || magnitude(s) == -s,
            magnitude(s) >= 0,
            magnitude(s) >= s,
            magnitude(s) >= -s,
    ;
}

/// A point is found near a segment only if some point of the segment is within the
/// tolerance.
pub proof fn lemma_near_segment_is_near_a_point_of_it(
    point: Vec2D<Fixed>,
    start: Vec2D<Fixed>,
    end: Vec2D<Fixed>,
    tolerance: Fixed,
)
    requires
        spec_point_near_segment(point, start, end, tolerance),
    ensures
        exists|t: Fixed|
            is_part(t) && point.spec_distance_to(
                #[trigger] point_of_segment(start, end, t),
            ).raw <= tolerance.raw,
{
    let segment = end.spec_minus(start);
    let len2 = segment.spec_norm2();
    if len2.spec_at_most(Fixed::spec_epsilon()) {
        assert(segment.x.raw * 0 == 0 && segment.y.raw * 0 == 0);
        assert(point_of_segment(start, end, Fixed { raw: 0 }) == start);
    } else {
        let to_point = point.spec_minus(start);
        let along = to_point.x.spec_times(segment.x).spec_plus(to_point.y.spec_times(segment.y));
        let raw = along.spec_over(len2).raw;
        let t = if raw < 0 {
            Fixed { raw: 0 }
        } else if raw > 64 {
            Fixed { raw: 64 }
        } else {
            Fixed { raw }
        };
        assert(is_part(t));
        assert(point.spec_distance_to(point_of_segment(start, end, t)).raw <= tolerance.raw);
    }
}

/// Whether a point is near a segment does not change if everything is shifted.
pub proof fn lemma_near_segment_is_shift_invariant(
    point: Vec2D<Fixed>,
    start: Vec2D<Fixed>,
    end: Vec2D<Fixed>,
    shift: Vec2D<Fixed>,
    tolerance: Fixed,
)
    requires
        moderate(point, 0x100_0000_0000_0000),
        moderate(start, 0x100_0000_0000_0000),
        moderate(end, 0x100_0000_0000_0000),
        moderate(shift, 0x100_0000_0000_0000),
    ensures
        spec_point_near_segment(
            point.spec_plus(shift),
            start.spec_plus(shift),
            end.spec_plus(shift),
            tolerance,
        ) == spec_point_near_segment(point, start, end, tolerance),
{
    let segment = end.spec_minus(start);
    let to_point = point.spec_minus(start);
    assert(end.spec_plus(shift).spec_minus(start.spec_plus(shift)) == segment);
    assert(point.spec_plus(shift).spec_minus(start.spec_plus(shift)) == to_point);
    assert(point.spec_plus(shift).spec_minus(start.spec_plus(shift)) == point.spec_minus(start));
    let len2 = segment.spec_norm2();
    if !len2.spec_at_most(Fixed::spec_epsilon()) {
        let along = to_point.x.spec_times(segment.x).spec_plus(to_point.y.spec_times(segment.y));
        let raw = along.spec_over(len2).raw;
        let t = if raw < 0 {
            0int
        } else if raw > 64 {
            64int
        } else {
            raw as int
        };
        let part = Fixed { raw: t as i64 };
        lemma_part_of_length(segment.x.raw as int, t);
        lemma_part_of_length(segment.y.raw as int, t);
        let closest = point_of_segment(start, end, part);
        let shifted = start.spec_plus(shift).spec_plus(segment.spec_times(part));
        assert(shifted == closest.spec_plus(shift));
        assert(point.spec_plus(shift).spec_minus(shifted) == point.spec_minus(closest));
    }
}

/// The distance of two points is no longer than the way along the axes.
pub proof fn lemma_distance_at_most_sum(a: Vec2D<Fixed>, b: Vec2D<Fixed>)
    requires
        moderate(a, 0x4000_0000),
        moderate(b, 0x4000_0000),
    ensures
        0 <= a.spec_distance_to(b).raw <= magnitude(a.x.raw - b.x.raw) + magnitude(
            a.y.raw - b.y.raw,
        ),
{
    let dx = a.x.raw - b.x.raw;
    let dy = a.y.raw - b.y.raw;
    lemma_square_is_moderate(dx);
    lemma_square_is_moderate(dy);
    let n = ((dx * dx) / 64 + (dy * dy) / 64) * 64;
    lemma_integer_root(n);
    let r = integer_root(n);
    let sum = magnitude(dx) + magnitude(dy);
    assert(n <= sum * sum) by (nonlinear_arith)
        requires
            n <= dx * dx + dy * dy,
            sum == magnitude(dx) + magnitude(dy),
            magnitude(dx) == dx || magnitude(dx) == -dx,
            magnitude(dy) == dy || magnitude(dy) == -dy,
            0 <= magnitude(dx),
            0 <= magnitude(dy),
    ;
    assert(r <= sum) by (nonlinear_arith)
        requires
            0 <= r,
            0 <= sum,
            r * r <= n,
            n <= sum * sum,
    ;
}

/// The distance of two points is that of the plane, up to rounding.
pub proof fn lemma_distance_is_euclidean(a: Vec2D<Fixed>, b: Vec2D<Fixed>)
    requires
        moderate(a, 0x4000_0000),
        moderate(b, 0x4000_0000),
    ensures
        ({
            let dx = a.x.raw - b.x.raw;
            let dy = a.y.raw - b.y.raw;
            let r = a.spec_distance_to(b).raw;
            &&& r * r <= dx * dx + dy * dy
            &&& dx * dx + dy * dy < (r + 1) * (r + 1) + 126
            &&& r == b.spec_distance_to(a).raw
        }),
{
    lemma_distance_at_most_sum(a, b);
    let dx = a.x.raw - b.x.raw;
    let dy = a.y.raw - b.y.raw;
    lemma_square_is_moderate(dx);
    lemma_square_is_moderate(dy);
    assert((-dx) * (-dx) == dx * dx) by (nonlinear_arith);
    assert((-dy) * (-dy) == dy * dy) by (nonlinear_arith);
    let n = ((dx * dx) / 64 + (dy * dy) / 64) * 64;
    lemma_integer_root(n);
    let r = integer_root(n);
    assert(r <= 0x1_0000_0000) by (nonlinear_arith)
        requires
            0 <= r,
            r * r <= n,
            n <= 0x8000_0000_0000_0000,
    ;
}

proof fn lemma_square_is_moderate(d: int)
    requires
        -0x8000_0000 < d < 0x8000_0000,
    ensures
        0 <= d * d < 0x4000_0000_0000_0000,
{
    assert(0 <= d * d < 0x4000_0000_0000_0000) by (nonlinear_arith)
        requires
            -0x8000_0000 < d < 0x8000_0000,
    ;
}

/// What rounding leaves of a product of a coordinate and a part of itself.
proof fn lemma_rounded_part(s: int, t: int)
    requires
        0 <= t <= 64,
    ensures
        ({
            let d = (s * t) / 64;
            &&& s * s * t - 63 * magnitude(s) <= 64 * (d * s) <= s * s * t + 63 * magnitude(s)
        }),
{
    let d = (s * t) / 64;
    let r = s * t - 64 * d;
    assert(0 <= r <= 63);
    assert(64 * (d * s) == s * s * t - s * r) by (nonlinear_arith)
        requires
            r == s * t - 64 * d,
    ;
    assert(-63 * magnitude(s) <= s * r <= 63 * magnitude(s)) by (nonlinear_arith)
        requires
            0 <= r <= 63,
            magnitude(s) >= s,
            magnitude(s) >= -s,
            magnitude(s) >= 0,
    ;
}

/// The part of the way that is computed for a point of a segment: at most one step
/// less than the part that the point was made with.
proof fn lemma_part_is_found(sx: int, sy: int, t: int)
    requires
        0 <= t <= 64,
        magnitude(sx) + magnitude(sy) >= 256,
    ensures
        ({
            let dx = (sx * t) / 64;
            let dy = (sy * t) / 64;
            let along = (dx * sx) / 64 + (dy * sy) / 64;
            let len2 = (sx * sx) / 64 + (sy * sy) / 64;
            &&& 2 <= len2
            &&& t - 1 <= (along * 64) / len2 <= t
        }),
{
    let dx = (sx * t) / 64;
    let dy = (sy * t) / 64;
    let m = magnitude(sx) + magnitude(sy);
    let n = sx * sx + sy * sy;
    let p = dx * sx + dy * sy;
    let a = (dx * sx) / 64 + (dy * sy) / 64;
    let l = (sx * sx) / 64 + (sy * sy) / 64;
    lemma_rounded_part(sx, t);
    lemma_rounded_part(sy, t);
    assert(n * t == sx * sx * t + sy * sy * t) by (nonlinear_arith)
        requires
            n == sx * sx + sy * sy,
    ;
    assert(n * t - 63 * m <= 64 * p <= n * t + 63 * m);
    assert(p - 126 <= 64 * a <= p);
    assert(n - 126 <= 64 * l <= n);
    assert(2 * n >= m * m) by (nonlinear_arith)
        requires
            n == sx * sx + sy * sy,
            m == magnitude(sx) + magnitude(sy),
            magnitude(sx) == sx || magnitude(sx) == -sx,
            magnitude(sy) == sy || magnitude(sy) == -sy,
    ;
    assert(m * m >= 256 * m) by (nonlinear_arith)
        requires
            m >= 256,
    ;
    assert(n >= 128 * m);
    assert(l >= 2);
    assert(a * 64 < (t + 1) * l) by (nonlinear_arith)
        requires
            64 * a <= p,
            64 * p <= n * t + 63 * m,
            n - 126 <= 64 * l,
            n >= 128 * m,
            m >= 256,
            0 <= t <= 64,
    {
        assert((t + 1) * (64 * l) >= (t + 1) * (n - 126));
        assert((t + 1) * (n - 126) == n * t + n - 126 * t - 126);
        assert(64 * (64 * a) <= n * t + 63 * m);
        assert((t + 1) * (64 * l) == 64 * ((t + 1) * l));
    }
    assert(a * 64 >= (t - 1) * l) by (nonlinear_arith)
        requires
            p - 126 <= 64 * a,
            n * t - 63 * m <= 64 * p,
            64 * l <= n,
            n - 126 <= 64 * l,
            n >= 128 * m,
            m >= 256,
            0 <= t <= 64,
    {
        assert(64 * (64 * a) >= n * t - 63 * m - 8064);
        assert((t - 1) * (64 * l) == 64 * ((t - 1) * l));
        if t >= 1 {
            assert((t - 1) * (64 * l) <= (t - 1) * n);
            assert((t - 1) * n == n * t - n);
        }
    }
    let q = (a * 64) / l;
    assert(t - 1 <= q <= t) by (nonlinear_arith)
        requires
            2 <= l,
            q == (a * 64) / l,
            a * 64 < (t + 1) * l,
            a * 64 >= (t - 1) * l,
    ;
}

/// A step less of the way is at most a sixty-fourth of a length less.
proof fn lemma_step_of_length(s: int, t: int, u: int)
    requires
        0 <= u <= 64,
        u == t || u == t - 1,
    ensures
        magnitude((s * t) / 64 - (s * u) / 64) <= magnitude(s) / 64 + 1,
{
    if u == t - 1 {
        assert(s * u == s * t - s) by (nonlinear_arith)
            requires
                u == t - 1,
        ;
    }
}

/// How far from its point of a segment a point may be found, because of rounding: a
/// sixty-fourth of the way along the axes; all of it if that is less than four
/// pixels.
pub open spec fn rounding_slack(start: Vec2D<Fixed>, end: Vec2D<Fixed>) -> int {
    let way = magnitude(end.x.raw - start.x.raw) + magnitude(end.y.raw - start.y.raw);
    if way >= 256 {
        way / 64 + 2
    } else {
        way
    }
}

/// Every point of a segment is found near it, up to rounding.
pub proof fn lemma_points_of_segment_are_near(
    start: Vec2D<Fixed>,
    end: Vec2D<Fixed>,
    t: Fixed,
    tolerance: Fixed,
)
    requires
        moderate(start, 0x1000_0000),
        moderate(end, 0x1000_0000),
        is_part(t),
        tolerance.raw >= rounding_slack(start, end),
    ensures
        spec_point_near_segment(point_of_segment(start, end, t), start, end, tolerance),
{
    let sx = end.x.raw - start.x.raw;
    let sy = end.y.raw - start.y.raw;
    let k = t.raw as int;
    let segment = end.spec_minus(start);
    let len2 = segment.spec_norm2();
    let point = point_of_segment(start, end, t);
    lemma_square_is_moderate(sx);
    lemma_square_is_moderate(sy);
    lemma_part_of_length(sx, k);
    lemma_part_of_length(sy, k);
    let dx = (sx * k) / 64;
    let dy = (sy * k) / 64;
    assert(point.x.raw == start.x.raw + dx);
    assert(point.y.raw == start.y.raw + dy);
    if len2.spec_at_most(Fixed::spec_epsilon()) {
        lemma_distance_at_most_sum(point, start);
        if magnitude(sx) + magnitude(sy) >= 256 {
            lemma_part_is_found(sx, sy, k);
        }
    } else {
        let to_point = point.spec_minus(start);
        assert(to_point.x.raw == dx && to_point.y.raw == dy);
        lemma_product_is_moderate(dx, sx);
        lemma_product_is_moderate(dy, sy);
        let a = (dx * sx) / 64 + (dy * sy) / 64;
        let along = to_point.x.spec_times(segment.x).spec_plus(to_point.y.spec_times(segment.y));
        assert(along.raw == a);
        let q = (a * 64) / (len2.raw as int);
        let raw = along.spec_over(len2).raw;
        let u = if raw < 0 {
            0int
        } else if raw > 64 {
            64int
        } else {
            raw as int
        };
        let part = Fixed { raw: u as i64 };
        lemma_part_of_length(sx, u);
        lemma_part_of_length(sy, u);
        let closest = point_of_segment(start, end, part);
        assert(closest.x.raw == start.x.raw + (sx * u) / 64);
        assert(closest.y.raw == start.y.raw + (sy * u) / 64);
        lemma_distance_at_most_sum(point, closest);
        if magnitude(sx) + magnitude(sy) >= 256 {
            lemma_part_is_found(sx, sy, k);
            assert(raw == q);
            assert(u == k || u == k - 1);
            lemma_step_of_length(sx, k, u);
            lemma_step_of_length(sy, k, u);
        } else {
            lemma_parts_differ_by_less(sx, k, u);
            lemma_parts_differ_by_less(sy, k, u);
        }
    }
}

proof fn lemma_parts_differ_by_less(s: int, t: int, u: int)
    requires
        0 <= t <= 64,
        0 <= u <= 64,
    ensures
        magnitude((s * t) / 64 - (s * u) / 64) <= magnitude(s),
{
    if s >= 0 {
        assert(0 <= s * t <= s * 64 && 0 <= s * u <= s * 64) by (nonlinear_arith)
            requires
                0 <= s,
                0 <= t <= 64,
                0 <= u <= 64,
        ;
    } else {
        assert(s * 64 <= s * t <= 0 && s * 64 <= s * u <= 0) by (nonlinear_arith)
            requires
                s < 0,
                0 <= t <= 64,
                0 <= u <= 64,
        ;
    }
}

proof fn lemma_product_is_moderate(d: int, s: int)
    requires
        -0x8000_0000 < d < 0x8000_0000,
        -0x8000_0000 < s < 0x8000_0000,
    ensures
        -0x4000_0000_0000_0000 < d * s < 0x4000_0000_0000_0000,
{
    assert(-0x4000_0000_0000_0000 < d * s < 0x4000_0000_0000_0000) by (nonlinear_arith)
        requires
            -0x8000_0000 < d < 0x8000_0000,
            -0x8000_0000 < s < 0x8000_0000,
    ;
}

/// Both ends of a segment are near it at any tolerance, even at none.
pub proof fn lemma_ends_are_near(start: Vec2D<Fixed>, end: Vec2D<Fixed>, tolerance: Fixed)
    requires
        moderate(start, 0x1000_0000),
        moderate(end, 0x1000_0000),
        0 <= tolerance.raw,
        end.spec_minus(start).spec_norm2().raw > 1,
    ensures
        spec_point_near_segment(start, start, end, tolerance),
        spec_point_near_segment(end, start, end, tolerance),
{
    let sx = end.x.raw - start.x.raw;
    let sy = end.y.raw - start.y.raw;
    lemma_square_is_moderate(sx);
    lemma_square_is_moderate(sy);
    lemma_distance_at_most_sum(start, start);
    lemma_distance_at_most_sum(end, end);
    let segment = end.spec_minus(start);
    let len2 = segment.spec_norm2();
    assert(0 * sx == 0 && 0 * sy == 0 && sx * 0 == 0 && sy * 0 == 0);
    assert((len2.raw * 64) / (len2.raw as int) == 64) by (nonlinear_arith)
        requires
            0 < len2.raw,
    ;
    assert(start.spec_minus(start).x.spec_times(segment.x).raw == 0);
    assert(start.spec_minus(start).y.spec_times(segment.y).raw == 0);
    assert((0int * 64) / (len2.raw as int) == 0) by (nonlinear_arith)
        requires
            0 < len2.raw,
    ;
    assert(point_of_segment(start, end, Fixed { raw: 0 }) == start);
    assert(point_of_segment(start, end, Fixed { raw: 64 }) == end);
    assert(end.spec_minus(start).x.spec_times(segment.x).spec_plus(
        end.spec_minus(start).y.spec_times(segment.y),
    ) == len2);
}

/// The box of an object, within a margin, by its edges.
pub proof fn lemma_contains_is_within_edges(
    bounds: ObjectBounds<Fixed>,
    point: Vec2D<Fixed>,
    margin: Fixed,
)
    requires
        moderate(bounds.top_left, 0x1000_0000_0000_0000),
        moderate(bounds.size, 0x1000_0000_0000_0000),
        -0x1000_0000_0000_0000 < margin.raw < 0x1000_0000_0000_0000,
    ensures
        bounds.spec_contains(point, margin) <==> {
            let left = bounds.top_left.x.raw;
            let top = bounds.top_left.y.raw;
            &&& left - margin.raw <= point.x.raw <= left + bounds.size.x.raw + margin.raw
            &&& top - margin.raw <= point.y.raw <= top + bounds.size.y.raw + margin.raw
        },
{
}

/// The eight handles of a box stand on its corners and in the middle of its edges.
pub proof fn lemma_places_of_handles(bounds: ObjectBounds<Fixed>)
    requires
        moderate(bounds.top_left, 0x1000_0000_0000_0000),
        moderate(bounds.size, 0x1000_0000_0000_0000),
    ensures
        ({
            let left = bounds.top_left.x.raw as int;
            let top = bounds.top_left.y.raw as int;
            let right = left + bounds.size.x.raw;
            let bottom = top + bounds.size.y.raw;
            let across = left + bounds.size.x.raw as int / 2;
            let down = top + bounds.size.y.raw as int / 2;
            let stands_at = |handle: EditHandle, x: int, y: int|
                bounds.spec_handle_position(handle) == Some(
                    Vec2D { x: Fixed { raw: x as i64 }, y: Fixed { raw: y as i64 } },
                );
            &&& stands_at(EditHandle::TopLeft, left, top)
            &&& stands_at(EditHandle::Top, across, top)
            &&& stands_at(EditHandle::TopRight, right, top)
            &&& stands_at(EditHandle::Right, right, down)
            &&& stands_at(EditHandle::BottomRight, right, bottom)
            &&& stands_at(EditHandle::Bottom, across, bottom)
            &&& stands_at(EditHandle::BottomLeft, left, bottom)
            &&& stands_at(EditHandle::Left, left, down)
            &&& bounds.spec_handle_position(EditHandle::Start) is None
            &&& bounds.spec_handle_position(EditHandle::End) is None
        }),
{
    let w = bounds.size.x.raw as int;
    let h = bounds.size.y.raw as int;
    assert((w * 64) / 128 == w / 2);
    assert((h * 64) / 128 == h / 2);
}

/// The handle that is found is in reach, and no other handle is nearer; and if one is
/// in reach, one is found.
pub proof fn lemma_found_handle_is_nearest(
    handles: Seq<(EditHandle, Vec2D<Fixed>)>,
    pos: Vec2D<Fixed>,
    tolerance: Fixed,
)
    ensures
        match spec_closest_handle(handles, pos, tolerance) {
            Some(handle) => exists|i: int|
                {
                    &&& 0 <= i < handles.len()
                    &&& (#[trigger] handles[i]).0 == handle
                    &&& handles[i].1.spec_minus(pos).spec_norm2().raw <= tolerance.spec_times(
                        tolerance,
                    ).raw
                    &&& forall|j: int|
                        0 <= j < handles.len() ==> handles[i].1.spec_minus(pos).spec_norm2().raw
                            <= (#[trigger] handles[j]).1.spec_minus(pos).spec_norm2().raw
                },
            None => forall|j: int|
                0 <= j < handles.len() ==> (#[trigger] handles[j]).1.spec_minus(
                    pos,
                ).spec_norm2().raw > tolerance.spec_times(tolerance).raw,
        },
{
    match spec_closest_handle(handles, pos, tolerance) {
        Some(_) => {
            let i = choose|i: int| is_closest(handles, pos, tolerance, i);
            assert(handle_in_reach(handles, pos, tolerance, i));
            assert forall|j: int| 0 <= j < handles.len() implies handles[i].1.spec_minus(
                pos,
            ).spec_norm2().raw <= (#[trigger] handles[j]).1.spec_minus(pos).spec_norm2().raw by {
                if handle_in_reach(handles, pos, tolerance, j) {
                }
            }
        },
        None => {
            assert forall|j: int| 0 <= j < handles.len() implies (
            #[trigger] handles[j]).1.spec_minus(pos).spec_norm2().raw > tolerance.spec_times(
                tolerance,
            ).raw by {
                if handle_in_reach(handles, pos, tolerance, j) {
                    lemma_some_handle_is_closest(handles, pos, tolerance, j);
                }
            }
        },
    }
}

/// Among handles of which one is in reach, one is the closest.
proof fn lemma_some_handle_is_closest(
    handles: Seq<(EditHandle, Vec2D<Fixed>)>,
    pos: Vec2D<Fixed>,
    tolerance: Fixed,
    j: int,
)
    requires
        handle_in_reach(handles, pos, tolerance, j),
    ensures
        exists|i: int| is_closest(handles, pos, tolerance, i),
    decreases handles.len(),
{
    let n = handles.len() - 1;
    let before = handles.drop_last();
    assert forall|i: int| 0 <= i < n implies handle_in_reach(before, pos, tolerance, i)
        == handle_in_reach(handles, pos, tolerance, i) by {
        assert(before[i] == handles[i]);
    }
    if exists|i: int| handle_in_reach(before, pos, tolerance, i) {
        let k = choose|i: int| handle_in_reach(before, pos, tolerance, i);
        lemma_some_handle_is_closest(before, pos, tolerance, k);
        let c = choose|i: int| is_closest(before, pos, tolerance, i);
        assert(handle_in_reach(before, pos, tolerance, c));
        assert(before[c] == handles[c]);
        let nearer = handle_in_reach(handles, pos, tolerance, n as int)
            && handles[n as int].1.spec_minus(pos).spec_norm2().raw < handles[c].1.spec_minus(
            pos,
        ).spec_norm2().raw;
        let best = if nearer {
            n as int
        } else {
            c
        };
        assert forall|i: int| #[trigger] handle_in_reach(handles, pos, tolerance, i) implies {
            let di = handles[i].1.spec_minus(pos).spec_norm2();
            let db = handles[best].1.spec_minus(pos).spec_norm2();
            &&& !di.spec_sorts_before(db)
            &&& i < best ==> db.spec_sorts_before(di)
        } by {
            if i < n {
                assert(before[i] == handles[i]);
                assert(handle_in_reach(before, pos, tolerance, i));
            }
        }
        assert(is_closest(handles, pos, tolerance, best));
    } else {
        assert(j == n) by {
            if j < n {
                assert(handle_in_reach(before, pos, tolerance, j));
            }
        }
        assert forall|i: int| #[trigger]
            handle_in_reach(handles, pos, tolerance, i) implies i == n by {
            if i < n {
                assert(handle_in_reach(before, pos, tolerance, i));
            }
        }
        assert(is_closest(handles, pos, tolerance, n as int));
    }
}

/// The handle on the other side of the box.
pub open spec fn opposite_handle(handle: EditHandle) -> EditHandle {
    match handle {
        EditHandle::TopLeft => EditHandle::BottomRight,
        EditHandle::Top => EditHandle::Bottom,
        EditHandle::TopRight => EditHandle::BottomLeft,
        EditHandle::Right => EditHandle::Left,
        EditHandle::BottomRight => EditHandle::TopLeft,
        EditHandle::Bottom => EditHandle::Top,
        EditHandle::BottomLeft => EditHandle::TopRight,
        EditHandle::Left => EditHandle::Right,
        EditHandle::Start => EditHandle::End,
        EditHandle::End => EditHandle::Start,
    }
}

/// The part of a displacement that a handle can follow: one in the middle of an edge
/// moves across that edge only.
pub open spec fn followed(handle: EditHandle, delta: Vec2D<Fixed>) -> (int, int) {
    let (x, y) = (delta.x.raw as int, delta.y.raw as int);
    match handle {
        EditHandle::Top | EditHandle::Bottom => (0, y),
        EditHandle::Left | EditHandle::Right => (x, 0),
        _ => (x, y),
    }
}

/// A box that is resized by a handle follows the pointer with that handle, while the
/// handle on the other side stays where it is. The drag is no longer than the box.
pub proof fn lemma_resized_box_follows_its_handle(
    bounds: ObjectBounds<Fixed>,
    handle: EditHandle,
    delta: Vec2D<Fixed>,
)
    requires
        handle !is Start,
        handle !is End,
        moderate(bounds.top_left, 0x100_0000_0000_0000),
        moderate(bounds.size, 0x100_0000_0000_0000),
        magnitude(delta.x.raw as int) <= bounds.size.x.raw,
        magnitude(delta.y.raw as int) <= bounds.size.y.raw,
    ensures
        ({
            let after = spec_resize_box(bounds, handle, delta);
            let (from, to) = (
                bounds.spec_handle_position(handle)->0,
                after.spec_handle_position(handle)->0,
            );
            let other = opposite_handle(handle);
            let (dx, dy) = followed(handle, delta);
            &&& to.x.raw - from.x.raw == dx
            &&& to.y.raw - from.y.raw == dy
            &&& after.spec_handle_position(other) == bounds.spec_handle_position(other)
        }),
{
    lemma_places_of_handles(bounds);
    let after = spec_resize_box(bounds, handle, delta);
    assert(0 <= after.size.x.raw && 0 <= after.size.y.raw);
    assert(moderate(after.top_left, 0x200_0000_0000_0000));
    assert(moderate(after.size, 0x400_0000_0000_0000));
    lemma_places_of_handles(after);
}

/// A click on a line selects it: the line is touched at each of its points, up to
/// rounding, and only where one of its points is within the tolerance.
pub proof fn lemma_line_is_touched_where_it_is(
    line: Line<Fixed>,
    t: Fixed,
    pos: Vec2D<Fixed>,
    tolerance: Fixed,
)
    requires
        line.direction is Some,
        moderate(line.start, 0x800_0000),
        moderate(line.direction->0, 0x800_0000),
        is_part(t),
    ensures
        ({
            let end = line.start.spec_plus(line.direction->0);
            &&& tolerance.raw >= rounding_slack(line.start, end) ==> line.spec_hit_test(
                point_of_segment(line.start, end, t),
                tolerance,
            )
            &&& line.spec_hit_test(pos, tolerance) ==> exists|u: Fixed|
                is_part(u) && pos.spec_distance_to(
                    #[trigger] point_of_segment(line.start, end, u),
                ).raw <= tolerance.raw
        }),
{
    let end = line.start.spec_plus(line.direction->0);
    if tolerance.raw >= rounding_slack(line.start, end) {
        lemma_points_of_segment_are_near(line.start, end, t, tolerance);
    }
    if line.spec_hit_test(pos, tolerance) {
        lemma_near_segment_is_near_a_point_of_it(pos, line.start, end, tolerance);
    }
}

/// The box around a line holds both of its ends, and is no larger than that takes.
pub proof fn lemma_box_of_a_line(line: Line<Fixed>)
    requires
        line.direction is Some,
        moderate(line.start, 0x1000_0000_0000_0000),
        moderate(line.direction->0, 0x1000_0000_0000_0000),
    ensures
        ({
            let bounds = line.spec_edit_bounds()->0;
            let end = line.start.spec_plus(line.direction->0);
            let zero = Fixed { raw: 0 };
            &&& line.spec_edit_bounds() is Some
            &&& bounds.spec_contains(line.start, zero)
            &&& bounds.spec_contains(end, zero)
            &&& bounds.size.x.raw == magnitude(line.direction->0.x.raw as int)
            &&& bounds.size.y.raw == magnitude(line.direction->0.y.raw as int)
        }),
{
}

/// The center of a box is as far from one side as from the other, up to one step.
pub proof fn lemma_center_is_in_the_middle(bounds: ObjectBounds<Fixed>)
    requires
        moderate(bounds.top_left, 0x100_0000_0000_0000),
        moderate(bounds.size, 0x100_0000_0000_0000),
    ensures
        ({
            let center = bounds.spec_center();
            let far = bounds.spec_bottom_right();
            &&& 0 <= far.x.raw + bounds.top_left.x.raw - 2 * center.x.raw <= 1
            &&& 0 <= far.y.raw + bounds.top_left.y.raw - 2 * center.y.raw <= 1
        }),
{
    let (w, h) = (bounds.size.x.raw as int, bounds.size.y.raw as int);
    assert((w * 32) / 64 == w / 2);
    assert((h * 32) / 64 == h / 2);
}

/// Of several handles that are equally near, the first one is found.
pub proof fn lemma_first_of_equally_near_handles(
    handles: Seq<(EditHandle, Vec2D<Fixed>)>,
    pos: Vec2D<Fixed>,
    tolerance: Fixed,
    i: int,
)
    requires
        0 <= i < handles.len(),
        handles[i].1.spec_minus(pos).spec_norm2().raw <= tolerance.spec_times(tolerance).raw,
        forall|j: int|
            0 <= j < handles.len() ==> handles[i].1.spec_minus(pos).spec_norm2().raw <= (
            #[trigger] handles[j]).1.spec_minus(pos).spec_norm2().raw,
        forall|j: int|
            0 <= j < i ==> handles[i].1.spec_minus(pos).spec_norm2().raw < (
            #[trigger] handles[j]).1.spec_minus(pos).spec_norm2().raw,
    ensures
        spec_closest_handle(handles, pos, tolerance) == Some(handles[i].0),
{
    assert(handle_in_reach(handles, pos, tolerance, i));
    assert forall|j: int| #[trigger] handle_in_reach(handles, pos, tolerance, j) implies {
        let di = handles[i].1.spec_minus(pos).spec_norm2();
        let dj = handles[j].1.spec_minus(pos).spec_norm2();
        &&& !dj.spec_sorts_before(di)
        &&& j < i ==> di.spec_sorts_before(dj)
    } by {
        assert(handles[j] == handles[j]);
    }
    assert(is_closest(handles, pos, tolerance, i));
    let c = choose|c: int| is_closest(handles, pos, tolerance, c);
    lemma_closest_unique(handles, pos, tolerance, c, i);
}

/// A line says of an edit that it changed if and only if it did.
pub proof fn lemma_line_tells_whether_it_changed(
    line: Line<Fixed>,
    handle: EditHandle,
    delta: Vec2D<Fixed>,
)
    requires
        line.direction is Some,
        moderate(line.start, 0x100_0000_0000_0000),
        moderate(line.direction->0, 0x100_0000_0000_0000),
        moderate(delta, 0x100_0000_0000_0000),
    ensures
        line.spec_move_by(delta).1 <==> line.spec_move_by(delta).0 != line,
        line.spec_resize(handle, delta).1 <==> line.spec_resize(handle, delta).0 != line,
        line.spec_move_by(delta).1 <==> delta.x.raw != 0 || delta.y.raw != 0,
        handle is Start || handle is End ==> (line.spec_resize(handle, delta).1 <==> delta.x.raw
            != 0 || delta.y.raw != 0),
        !(handle is Start || handle is End) ==> !line.spec_resize(handle, delta).1,
{
    let start = line.start;
    let moved = start.spec_plus(delta);
    assert(moved.x.raw == start.x.raw + delta.x.raw);
    assert(moved.y.raw == start.y.raw + delta.y.raw);
    let longer = line.direction->0.spec_plus(delta);
    assert(longer.x.raw == line.direction->0.x.raw + delta.x.raw);
    assert(longer.y.raw == line.direction->0.y.raw + delta.y.raw);
}

} // verus!

//! What holds of boxes, handles and lines, over any numbers that are exact or keep
//! their order; and of the fixed-point numbers in particular.
use vstd::prelude::*;

use crate::fixed::{lemma_fixed_counts_exactly, lemma_fixed_keeps_order, steps_of, Fixed};
use crate::math::{counts_exactly, keeps_order_of, positive_span, Scalar, Vec2D};
use crate::tools::edit::{displaced, spec_resize_box, EditHandle, ObjectBounds};
use crate::tools::line::Line;
use crate::tools::{handles_of, Drawable};

verus! {

/// The coordinates compare as equal.
pub open spec fn same_point<S: Scalar>(a: Vec2D<S>, b: Vec2D<S>) -> bool {
    a.x.spec_same_as(b.x) && a.y.spec_same_as(b.y)
}

/// The corners and sizes compare as equal.
pub open spec fn same_box<S: Scalar>(a: ObjectBounds<S>, b: ObjectBounds<S>) -> bool {
    same_point(a.top_left, b.top_left) && same_point(a.size, b.size)
}

/// The lines have a direction, look the same, and their starts and directions
/// compare as equal.
pub open spec fn same_line<S: Scalar>(a: Line<S>, b: Line<S>) -> bool {
    &&& a.direction is Some
    &&& b.direction is Some
    &&& same_point(a.start, b.start)
    &&& same_point(a.direction->0, b.direction->0)
    &&& a.style == b.style
}

/// The number is worth less than `bound` units, in either direction.
pub open spec fn within<S>(count: spec_fn(S) -> Option<int>, a: S, bound: int) -> bool {
    count(a) is Some && -bound < count(a)->0 < bound
}

/// Both coordinates are worth less than `bound` units, in either direction.
pub open spec fn vector_within<S>(
    count: spec_fn(S) -> Option<int>,
    v: Vec2D<S>,
    bound: int,
) -> bool {
    within(count, v.x, bound) && within(count, v.y, bound)
}

/// The same displacement in the other direction.
pub open spec fn opposite<S: Scalar>(delta: Vec2D<S>) -> Vec2D<S> {
    Vec2D { x: delta.x.spec_negate(), y: delta.y.spec_negate() }
}

pub open spec fn smaller_of<S: Scalar>(a: S, b: S) -> S {
    if a.spec_at_most(b) {
        a
    } else {
        b
    }
}

pub open spec fn distance(m: int, n: int) -> int {
    if m <= n {
        n - m
    } else {
        m - n
    }
}

/// One side of the box between two corners.
proof fn lemma_span_between<S: Scalar>(
    count: spec_fn(S) -> Option<int>,
    limit: int,
    bound: int,
    a: S,
    b: S,
)
    requires
        counts_exactly(count, limit),
        2 * bound <= limit,
        within(count, a, bound),
        within(count, b, bound),
    ensures
        ({
            let (start, length) = positive_span(a, b.spec_minus(a));
            let far = start.spec_plus(length);
            &&& count(start) == Some(count(smaller_of(a, b))->0)
            &&& count(length) == Some(distance(count(a)->0, count(b)->0))
            &&& count(far) == Some(count(a.spec_larger_of(b))->0)
        }),
{
    let length = b.spec_minus(a);
    assert(count(length) == Some(count(b)->0 - count(a)->0));
    if length.spec_less_than(S::spec_from_int(0)) {
        let start = a.spec_plus(length);
        assert(count(start) == count(b));
        assert(count(length.spec_negate()) == Some(count(a)->0 - count(b)->0));
        assert(count(start.spec_plus(length.spec_negate())) == count(a));
    } else {
        assert(count(a.spec_plus(length)) == count(b));
    }
}

/// The box between two corners is the same whichever corner is named first. It
/// reaches from the smaller to the larger coordinates, and is as large as the
/// corners are apart.
pub proof fn lemma_box_between_corners<S: Scalar>(
    count: spec_fn(S) -> Option<int>,
    limit: int,
    bound: int,
    a: Vec2D<S>,
    b: Vec2D<S>,
)
    requires
        counts_exactly(count, limit),
        2 * bound <= limit,
        vector_within(count, a, bound),
        vector_within(count, b, bound),
    ensures
        ({
            let bounds = ObjectBounds::spec_from_points(a, b);
            &&& same_box(bounds, ObjectBounds::spec_from_points(b, a))
            &&& same_point(
                bounds.top_left,
                Vec2D { x: smaller_of(a.x, b.x), y: smaller_of(a.y, b.y) },
            )
            &&& same_point(
                bounds.spec_bottom_right(),
                Vec2D { x: a.x.spec_larger_of(b.x), y: a.y.spec_larger_of(b.y) },
            )
            &&& count(bounds.size.x) == Some(distance(count(a.x)->0, count(b.x)->0))
            &&& count(bounds.size.y) == Some(distance(count(a.y)->0, count(b.y)->0))
        }),
{
    lemma_span_between(count, limit, bound, a.x, b.x);
    lemma_span_between(count, limit, bound, a.y, b.y);
    lemma_span_between(count, limit, bound, b.x, a.x);
    lemma_span_between(count, limit, bound, b.y, a.y);
}

/// One coordinate of the handles of a box: the beginning, the middle and the end of
/// a side lie on the side.
proof fn lemma_handles_lie_on_side<S: Scalar>(finite: spec_fn(S) -> bool, x: S, w: S)
    requires
        keeps_order_of(finite),
        finite(x),
        finite(w),
        finite(x.spec_plus(w)),
        !w.spec_less_than(S::spec_from_int(0)),
    ensures
        ({
            let zero = S::spec_from_int(0);
            let middle = x.spec_plus(w.spec_over(S::spec_from_int(2)));
            let end = x.spec_plus(w);
            let first = x.spec_minus(zero);
            let last = end.spec_plus(zero);
            &&& first.spec_at_most(x) && x.spec_at_most(last)
            &&& first.spec_at_most(middle) && middle.spec_at_most(last)
            &&& first.spec_at_most(end) && end.spec_at_most(last)
        }),
{
    let zero = S::spec_from_int(0);
    let half = w.spec_over(S::spec_from_int(2));
    let middle = x.spec_plus(half);
    let end = x.spec_plus(w);
    let first = x.spec_minus(zero);
    let last = end.spec_plus(zero);
    assert(zero.spec_at_most(w));
    assert(zero.spec_at_most(half) && half.spec_at_most(w));
    assert(finite(middle));
    assert(x.spec_at_most(x.spec_plus(zero)));
    assert(x.spec_plus(zero).spec_at_most(middle));
    assert(middle.spec_at_most(end));
    assert(end.spec_at_most(last));
    assert(x.spec_at_most(middle));
    assert(x.spec_at_most(end));
    assert(first.spec_at_most(x));
}

/// Every handle of a box lies in the box, and the first and the fifth of them are
/// its corners.
pub proof fn lemma_handles_lie_in_box<S: Scalar>(
    finite: spec_fn(S) -> bool,
    bounds: ObjectBounds<S>,
)
    requires
        keeps_order_of(finite),
        bounds.is_positive(),
        finite(bounds.top_left.x),
        finite(bounds.top_left.y),
        finite(bounds.size.x),
        finite(bounds.size.y),
        finite(bounds.spec_bottom_right().x),
        finite(bounds.spec_bottom_right().y),
    ensures
        forall|i: int|
            0 <= i < EditHandle::spec_box_handles().len() ==> {
                let place = bounds.spec_handle_position(
                    #[trigger] EditHandle::spec_box_handles()[i],
                );
                &&& place is Some
                &&& bounds.spec_contains(place->0, S::spec_from_int(0))
            },
        bounds.spec_handle_position(EditHandle::TopLeft) == Some(bounds.top_left),
        bounds.spec_handle_position(EditHandle::BottomRight) == Some(bounds.spec_bottom_right()),
{
    lemma_handles_lie_on_side(finite, bounds.top_left.x, bounds.size.x);
    lemma_handles_lie_on_side(finite, bounds.top_left.y, bounds.size.y);
    assert forall|i: int| 0 <= i < EditHandle::spec_box_handles().len() implies {
        let place = bounds.spec_handle_position(#[trigger] EditHandle::spec_box_handles()[i]);
        &&& place is Some
        &&& bounds.spec_contains(place->0, S::spec_from_int(0))
    } by {
        let handle = EditHandle::spec_box_handles()[i];
        assert(handle.on_box());
    }
}

/// The moved edges of the box do not pass the opposite ones.
pub open spec fn edges_stay_in_order<S: Scalar>(
    bounds: ObjectBounds<S>,
    handle: EditHandle,
    delta: Vec2D<S>,
) -> bool {
    let far = bounds.spec_bottom_right();
    &&& displaced(handle.moves_left(), bounds.top_left.x, delta.x).spec_at_most(
        displaced(handle.moves_right(), far.x, delta.x),
    )
    &&& displaced(handle.moves_top(), bounds.top_left.y, delta.y).spec_at_most(
        displaced(handle.moves_bottom(), far.y, delta.y),
    )
}

/// One side of a box, after the edges that are `moved` were displaced.
pub open spec fn resized_side<S: Scalar>(
    start: S,
    length: S,
    delta: S,
    moved: (bool, bool),
) -> (S, S) {
    let near = displaced(moved.0, start, delta);
    let far = displaced(moved.1, start.spec_plus(length), delta);
    positive_span(near, far.spec_minus(near))
}

proof fn lemma_side_there_and_back<S: Scalar>(
    count: spec_fn(S) -> Option<int>,
    limit: int,
    bound: int,
    start: S,
    length: S,
    delta: S,
    moved: (bool, bool),
)
    requires
        counts_exactly(count, limit),
        8 * bound <= limit,
        within(count, start, bound),
        within(count, length, bound),
        within(count, delta, bound),
        !length.spec_less_than(S::spec_from_int(0)),
        !(moved.0 && moved.1),
        displaced(moved.0, start, delta).spec_at_most(
            displaced(moved.1, start.spec_plus(length), delta),
        ),
    ensures
        ({
            let (there, size) = resized_side(start, length, delta, moved);
            let (back, size_back) = resized_side(there, size, delta.spec_negate(), moved);
            back.spec_same_as(start) && size_back.spec_same_as(length)
        }),
{
    let near = displaced(moved.0, start, delta);
    let end = start.spec_plus(length);
    assert(count(end) == Some(count(start)->0 + count(length)->0));
    let far = displaced(moved.1, end, delta);
    assert(count(near) is Some && count(far) is Some);
    let size = far.spec_minus(near);
    assert(count(size) == Some(count(far)->0 - count(near)->0));
    assert(resized_side(start, length, delta, moved) == (near, size));
    let reverse = delta.spec_negate();
    assert(count(reverse) == Some(-count(delta)->0));
    let near_back = displaced(moved.0, near, reverse);
    assert(count(near_back) == count(start));
    let end_there = near.spec_plus(size);
    assert(count(end_there) == count(far));
    let far_back = displaced(moved.1, end_there, reverse);
    assert(count(far_back) == count(end));
    let size_back = far_back.spec_minus(near_back);
    assert(count(size_back) == count(length));
    assert(resized_side(near, size, reverse, moved) == (near_back, size_back));
}

/// A box that is resized by one handle and then back by the same handle is as it
/// was, as long as no edge passes the opposite one.
pub proof fn lemma_resize_there_and_back<S: Scalar>(
    count: spec_fn(S) -> Option<int>,
    limit: int,
    bound: int,
    bounds: ObjectBounds<S>,
    handle: EditHandle,
    delta: Vec2D<S>,
)
    requires
        counts_exactly(count, limit),
        8 * bound <= limit,
        bounds.is_positive(),
        vector_within(count, bounds.top_left, bound),
        vector_within(count, bounds.size, bound),
        vector_within(count, delta, bound),
        edges_stay_in_order(bounds, handle, delta),
    ensures
        same_box(
            spec_resize_box(spec_resize_box(bounds, handle, delta), handle, opposite(delta)),
            bounds,
        ),
{
    lemma_side_there_and_back(
        count,
        limit,
        bound,
        bounds.top_left.x,
        bounds.size.x,
        delta.x,
        (handle.moves_left(), handle.moves_right()),
    );
    lemma_side_there_and_back(
        count,
        limit,
        bound,
        bounds.top_left.y,
        bounds.size.y,
        delta.y,
        (handle.moves_top(), handle.moves_bottom()),
    );
}

proof fn lemma_side_stays<S: Scalar>(
    count: spec_fn(S) -> Option<int>,
    limit: int,
    bound: int,
    start: S,
    length: S,
    delta: S,
    moved: (bool, bool),
)
    requires
        counts_exactly(count, limit),
        2 * bound <= limit,
        within(count, start, bound),
        within(count, length, bound),
        !length.spec_less_than(S::spec_from_int(0)),
        (!moved.0 && !moved.1) || count(delta) == Some(0int),
    ensures
        ({
            let (there, size) = resized_side(start, length, delta, moved);
            there.spec_same_as(start) && size.spec_same_as(length)
        }),
{
    let near = displaced(moved.0, start, delta);
    let end = start.spec_plus(length);
    assert(count(end) == Some(count(start)->0 + count(length)->0));
    let far = displaced(moved.1, end, delta);
    assert(count(near) == count(start));
    assert(count(far) == count(end));
    assert(count(far.spec_minus(near)) == count(length));
}

/// No displacement, and no drag by an end of a line, resizes a box.
pub proof fn lemma_resize_by_nothing<S: Scalar>(
    count: spec_fn(S) -> Option<int>,
    limit: int,
    bound: int,
    bounds: ObjectBounds<S>,
    handle: EditHandle,
    delta: Vec2D<S>,
)
    requires
        counts_exactly(count, limit),
        2 * bound <= limit,
        bounds.is_positive(),
        vector_within(count, bounds.top_left, bound),
        vector_within(count, bounds.size, bound),
        !handle.on_box() || (vector_within(count, delta, bound) && delta.spec_is_zero()),
    ensures
        same_box(spec_resize_box(bounds, handle, delta), bounds),
{
    lemma_side_stays(
        count,
        limit,
        bound,
        bounds.top_left.x,
        bounds.size.x,
        delta.x,
        (handle.moves_left(), handle.moves_right()),
    );
    lemma_side_stays(
        count,
        limit,
        bound,
        bounds.top_left.y,
        bounds.size.y,
        delta.y,
        (handle.moves_top(), handle.moves_bottom()),
    );
}

/// One coordinate of a line whose ends are dragged.
proof fn lemma_end_coordinates<S: Scalar>(
    count: spec_fn(S) -> Option<int>,
    limit: int,
    bound: int,
    start: S,
    direction: S,
    delta: S,
)
    requires
        counts_exactly(count, limit),
        8 * bound <= limit,
        within(count, start, bound),
        within(count, direction, bound),
        within(count, delta, bound),
    ensures
        ({
            let end = start.spec_plus(direction);
            let moved = start.spec_plus(delta);
            let toward = end.spec_minus(moved);
            let away = direction.spec_plus(delta);
            let back = delta.spec_negate();
            let start_back = moved.spec_plus(back);
            &&& moved.spec_plus(toward).spec_same_as(end)
            &&& moved.spec_same_as(moved)
            &&& toward.spec_plus(delta).spec_same_as(direction)
            &&& start_back.spec_same_as(start)
            &&& moved.spec_plus(toward).spec_minus(start_back).spec_same_as(direction)
            &&& start.spec_same_as(start)
            &&& away.spec_plus(back).spec_same_as(direction)
            &&& count(back) == Some(-count(delta)->0)
            &&& moved.spec_plus(toward.spec_plus(delta)).spec_same_as(moved.spec_plus(direction))
        }),
{
    let end = start.spec_plus(direction);
    let moved = start.spec_plus(delta);
    assert(count(end) == Some(count(start)->0 + count(direction)->0));
    assert(count(moved) == Some(count(start)->0 + count(delta)->0));
    let toward = end.spec_minus(moved);
    assert(count(toward) == Some(count(direction)->0 - count(delta)->0));
    let end_there = moved.spec_plus(toward);
    assert(count(end_there) == count(end));
    let away = direction.spec_plus(delta);
    assert(count(away) == Some(count(direction)->0 + count(delta)->0));
    let back = delta.spec_negate();
    assert(count(back) == Some(-count(delta)->0));
    let start_back = moved.spec_plus(back);
    assert(count(start_back) == count(start));
    assert(count(end_there.spec_minus(start_back)) == count(direction));
    assert(count(away.spec_plus(back)) == count(direction));
    let both = toward.spec_plus(delta);
    assert(count(both) == count(direction));
    assert(count(moved.spec_plus(both)) == Some(count(moved)->0 + count(direction)->0));
    assert(count(moved.spec_plus(direction)) == Some(count(moved)->0 + count(direction)->0));
}

/// Dragging one end of a line leaves the other one in place, dragging both moves
/// the line, and dragging an end there and back leaves the line as it was.
pub proof fn lemma_line_ends<S: Scalar>(
    count: spec_fn(S) -> Option<int>,
    limit: int,
    bound: int,
    line: Line<S>,
    delta: Vec2D<S>,
)
    requires
        counts_exactly(count, limit),
        8 * bound <= limit,
        line.direction is Some,
        vector_within(count, line.start, bound),
        vector_within(count, line.direction->0, bound),
        vector_within(count, delta, bound),
        !delta.spec_is_zero(),
    ensures
        ({
            let by_start = line.spec_resize(EditHandle::Start, delta).0;
            let by_end = line.spec_resize(EditHandle::End, delta).0;
            let both = by_start.spec_resize(EditHandle::End, delta).0;
            let moved = line.spec_move_by(delta).0;
            &&& same_point(handles_of(by_start)[1].1, handles_of(line)[1].1)
            &&& handles_of(by_end)[0] == handles_of(line)[0]
            &&& same_line(both, moved)
            &&& same_point(handles_of(both)[0].1, handles_of(moved)[0].1)
            &&& same_point(handles_of(both)[1].1, handles_of(moved)[1].1)
            &&& same_line(by_start.spec_resize(EditHandle::Start, opposite(delta)).0, line)
            &&& same_line(by_end.spec_resize(EditHandle::End, opposite(delta)).0, line)
        }),
{
    let direction = line.direction->0;
    lemma_end_coordinates(count, limit, bound, line.start.x, direction.x, delta.x);
    lemma_end_coordinates(count, limit, bound, line.start.y, direction.y, delta.y);
    assert(!opposite(delta).spec_is_zero());
}

/// A quarter of the range of the fixed-point numbers.
pub open spec fn quarter() -> int {
    0x4000_0000_0000_0000
}

/// A sixteenth of the range of the fixed-point numbers.
pub open spec fn sixteenth() -> int {
    0x1000_0000_0000_0000
}

/// The box between two corners with fixed-point coordinates.
pub proof fn lemma_fixed_box_between_corners(a: Vec2D<Fixed>, b: Vec2D<Fixed>)
    requires
        vector_within(steps_of(), a, quarter()),
        vector_within(steps_of(), b, quarter()),
    ensures
        ({
            let bounds = ObjectBounds::spec_from_points(a, b);
            &&& bounds == ObjectBounds::spec_from_points(b, a)
            &&& bounds.top_left == (Vec2D {
                x: smaller_of(a.x, b.x),
                y: smaller_of(a.y, b.y),
            })
            &&& bounds.spec_bottom_right() == (Vec2D {
                x: a.x.spec_larger_of(b.x),
                y: a.y.spec_larger_of(b.y),
            })
            &&& bounds.size.x.raw == distance(a.x.raw as int, b.x.raw as int)
            &&& bounds.size.y.raw == distance(a.y.raw as int, b.y.raw as int)
        }),
{
    lemma_fixed_counts_exactly();
    lemma_box_between_corners(steps_of(), 0x8000_0000_0000_0000, quarter(), a, b);
}

/// The handles of any box with fixed-point coordinates lie in the box.
pub proof fn lemma_fixed_handles_lie_in_box(bounds: ObjectBounds<Fixed>)
    requires
        bounds.is_positive(),
    ensures
        forall|i: int|
            0 <= i < EditHandle::spec_box_handles().len() ==> {
                let place = bounds.spec_handle_position(
                    #[trigger] EditHandle::spec_box_handles()[i],
                );
                &&& place is Some
                &&& bounds.spec_contains(place->0, Fixed::spec_from_int(0))
            },
{
    lemma_fixed_keeps_order();
    lemma_handles_lie_in_box(|a: Fixed| true, bounds);
}

/// A box with fixed-point coordinates that is resized there and back.
pub proof fn lemma_fixed_resize_there_and_back(
    bounds: ObjectBounds<Fixed>,
    handle: EditHandle,
    delta: Vec2D<Fixed>,
)
    requires
        bounds.is_positive(),
        vector_within(steps_of(), bounds.top_left, sixteenth()),
        vector_within(steps_of(), bounds.size, sixteenth()),
        vector_within(steps_of(), delta, sixteenth()),
    ensures
        edges_stay_in_order(bounds, handle, delta) ==> spec_resize_box(
            spec_resize_box(bounds, handle, delta),
            handle,
            opposite(delta),
        ) == bounds,
        !handle.on_box() || delta.spec_is_zero() ==> spec_resize_box(bounds, handle, delta)
            == bounds,
{
    let limit = 0x8000_0000_0000_0000int;
    lemma_fixed_counts_exactly();
    if edges_stay_in_order(bounds, handle, delta) {
        lemma_resize_there_and_back(steps_of(), limit, sixteenth(), bounds, handle, delta);
    }
    if !handle.on_box() || delta.spec_is_zero() {
        lemma_resize_by_nothing(steps_of(), limit, sixteenth(), bounds, handle, delta);
    }
}

/// A line with fixed-point coordinates whose ends are dragged.
pub proof fn lemma_fixed_line_ends(line: Line<Fixed>, delta: Vec2D<Fixed>)
    requires
        line.direction is Some,
        vector_within(steps_of(), line.start, sixteenth()),
        vector_within(steps_of(), line.direction->0, sixteenth()),
        vector_within(steps_of(), delta, sixteenth()),
        !delta.spec_is_zero(),
    ensures
        ({
            let by_start = line.spec_resize(EditHandle::Start, delta).0;
            let by_end = line.spec_resize(EditHandle::End, delta).0;
            let moved = line.spec_move_by(delta).0;
            &&& handles_of(by_start)[1] == handles_of(line)[1]
            &&& handles_of(by_end)[0] == handles_of(line)[0]
            &&& by_start.spec_resize(EditHandle::End, delta).0 == moved
            &&& by_start.spec_resize(EditHandle::Start, opposite(delta)).0 == line
            &&& by_end.spec_resize(EditHandle::End, opposite(delta)).0 == line
        }),
{
    lemma_fixed_counts_exactly();
    lemma_line_ends(steps_of(), 0x8000_0000_0000_0000, sixteenth(), line, delta);
}

} // verus!

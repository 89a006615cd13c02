//! Bounds, handles and hit tests of objects that are edited on the canvas.
use vstd::prelude::*;

use crate::math::{positive_span, rect_ensure_positive_size, Scalar, Vec2D};

verus! {

/// The box around an object, with a size that is not negative.
#[derive(Debug, Clone, Copy, PartialEq)]
pub struct ObjectBounds<S> {
    pub top_left: Vec2D<S>,
    pub size: Vec2D<S>,
}

/// A point by which an object is resized: the corners and edges of a box, or
/// the two ends of a line.
#[derive(Debug, Clone, Copy, PartialEq, Eq, Structural)]
pub enum EditHandle {
    TopLeft,
    Top,
    TopRight,
    Right,
    BottomRight,
    Bottom,
    BottomLeft,
    Left,
    Start,
    End,
}

impl<S: Scalar> ObjectBounds<S> {
    pub open spec fn spec_new(top_left: Vec2D<S>, size: Vec2D<S>) -> Self {
        let (x, w) = positive_span(top_left.x, size.x);
        let (y, h) = positive_span(top_left.y, size.y);
        ObjectBounds { top_left: Vec2D { x, y }, size: Vec2D { x: w, y: h } }
    }

    pub open spec fn spec_from_points(a: Vec2D<S>, b: Vec2D<S>) -> Self {
        Self::spec_new(a, b.spec_minus(a))
    }

    pub open spec fn spec_bottom_right(self) -> Vec2D<S> {
        self.top_left.spec_plus(self.size)
    }

    pub open spec fn spec_center(self) -> Vec2D<S> {
        self.top_left.spec_plus(
            self.size.spec_times(S::spec_from_int(1).spec_over(S::spec_from_int(2))),
        )
    }

    /// No side has a negative length.
    pub open spec fn is_positive(self) -> bool {
        &&& !self.size.x.spec_less_than(S::spec_from_int(0))
        &&& !self.size.y.spec_less_than(S::spec_from_int(0))
    }

    pub open spec fn spec_contains(self, point: Vec2D<S>, margin: S) -> bool {
        &&& self.top_left.x.spec_minus(margin).spec_at_most(point.x)
        &&& self.top_left.y.spec_minus(margin).spec_at_most(point.y)
        &&& point.x.spec_at_most(self.top_left.x.spec_plus(self.size.x).spec_plus(margin))
        &&& point.y.spec_at_most(self.top_left.y.spec_plus(self.size.y).spec_plus(margin))
    }

    /// Where a handle of a box lies. The ends of a line are no part of a box.
    pub open spec fn spec_handle_position(self, handle: EditHandle) -> Option<Vec2D<S>> {
        let two = S::spec_from_int(2);
        let left = self.top_left.x;
        let top = self.top_left.y;
        let right = left.spec_plus(self.size.x);
        let bottom = top.spec_plus(self.size.y);
        let middle_x = left.spec_plus(self.size.x.spec_over(two));
        let middle_y = top.spec_plus(self.size.y.spec_over(two));
        match handle {
            EditHandle::TopLeft => Some(Vec2D { x: left, y: top }),
            EditHandle::Top => Some(Vec2D { x: middle_x, y: top }),
            EditHandle::TopRight => Some(Vec2D { x: right, y: top }),
            EditHandle::Right => Some(Vec2D { x: right, y: middle_y }),
            EditHandle::BottomRight => Some(Vec2D { x: right, y: bottom }),
            EditHandle::Bottom => Some(Vec2D { x: middle_x, y: bottom }),
            EditHandle::BottomLeft => Some(Vec2D { x: left, y: bottom }),
            EditHandle::Left => Some(Vec2D { x: left, y: middle_y }),
            EditHandle::Start | EditHandle::End => None,
        }
    }

    /// The box at `top_left` that reaches over `size`, which may be negative.
    pub fn new(top_left: Vec2D<S>, size: Vec2D<S>) -> (r: Self)
        ensures
            r == Self::spec_new(top_left, size),
            r.is_positive(),
    {
        let (top_left, size) = rect_ensure_positive_size(top_left, size);
        ObjectBounds { top_left, size }
    }

    /// The box between two opposite corners.
    pub fn from_points(a: Vec2D<S>, b: Vec2D<S>) -> (r: Self)
        ensures
            r == Self::spec_from_points(a, b),
            r.is_positive(),
    {
        Self::new(a, b.minus(a))
    }

    pub fn bottom_right(self) -> (r: Vec2D<S>)
        ensures
            r == self.spec_bottom_right(),
    {
        self.top_left.plus(self.size)
    }

    pub fn center(self) -> (r: Vec2D<S>)
        ensures
            r == self.top_left.spec_plus(
                self.size.spec_times(S::spec_from_int(1).spec_over(S::spec_from_int(2))),
            ),
            r == self.spec_center(),
    {
        let half = S::from_int(1).over(S::from_int(2));
        self.top_left.plus(self.size.times(half))
    }

    /// Tells whether `point` lies in the box or within `margin` of its edges.
    pub fn contains(self, point: Vec2D<S>, margin: S) -> (r: bool)
        ensures
            r == self.spec_contains(point, margin),
    {
        self.top_left.x.minus(margin).at_most(point.x) && self.top_left.y.minus(margin).at_most(
            point.y,
        ) && point.x.at_most(self.top_left.x.plus(self.size.x).plus(margin)) && point.y.at_most(
            self.top_left.y.plus(self.size.y).plus(margin),
        )
    }

    pub fn handle_position(self, handle: EditHandle) -> (r: Option<Vec2D<S>>)
        ensures
            r == self.spec_handle_position(handle),
    {
        let x = self.top_left.x;
        let y = self.top_left.y;
        let w = self.size.x;
        let h = self.size.y;
        let two = S::from_int(2);

        match handle {
            EditHandle::TopLeft => Some(Vec2D::new(x, y)),
            EditHandle::Top => Some(Vec2D::new(x.plus(w.over(two)), y)),
            EditHandle::TopRight => Some(Vec2D::new(x.plus(w), y)),
            EditHandle::Right => Some(Vec2D::new(x.plus(w), y.plus(h.over(two)))),
            EditHandle::BottomRight => Some(Vec2D::new(x.plus(w), y.plus(h))),
            EditHandle::Bottom => Some(Vec2D::new(x.plus(w.over(two)), y.plus(h))),
            EditHandle::BottomLeft => Some(Vec2D::new(x, y.plus(h))),
            EditHandle::Left => Some(Vec2D::new(x, y.plus(h.over(two)))),
            EditHandle::Start | EditHandle::End => None,
        }
    }
}

impl EditHandle {
    /// The handles of a box, clockwise from the top left corner.
    pub open spec fn spec_box_handles() -> Seq<EditHandle> {
        seq![
            EditHandle::TopLeft,
            EditHandle::Top,
            EditHandle::TopRight,
            EditHandle::Right,
            EditHandle::BottomRight,
            EditHandle::Bottom,
            EditHandle::BottomLeft,
            EditHandle::Left,
        ]
    }

    /// Tells whether the handle belongs to a box.
    pub open spec fn on_box(self) -> bool {
        !(self is Start || self is End)
    }

    pub open spec fn moves_left(self) -> bool {
        self is TopLeft || self is BottomLeft || self is Left
    }

    pub open spec fn moves_right(self) -> bool {
        self is TopRight || self is BottomRight || self is Right
    }

    pub open spec fn moves_top(self) -> bool {
        self is TopLeft || self is TopRight || self is Top
    }

    pub open spec fn moves_bottom(self) -> bool {
        self is BottomLeft || self is BottomRight || self is Bottom
    }

    /// The handles of a box, clockwise from the top left corner.
    pub fn box_handles() -> (r: [EditHandle; 8])
        ensures
            r@ == Self::spec_box_handles(),
    {
        [
            EditHandle::TopLeft,
            EditHandle::Top,
            EditHandle::TopRight,
            EditHandle::Right,
            EditHandle::BottomRight,
            EditHandle::Bottom,
            EditHandle::BottomLeft,
            EditHandle::Left,
        ]
    }
}

/// The square of the distance between a handle and `pos`.
pub open spec fn handle_distance2<S: Scalar>(handle: (EditHandle, Vec2D<S>), pos: Vec2D<S>) -> S {
    handle.1.spec_minus(pos).spec_norm2()
}

/// Handle number `i` lies within `tolerance` of `pos`.
pub open spec fn handle_in_reach<S: Scalar>(
    handles: Seq<(EditHandle, Vec2D<S>)>,
    pos: Vec2D<S>,
    tolerance: S,
    i: int,
) -> bool {
    &&& 0 <= i < handles.len()
    &&& handle_distance2(handles[i], pos).spec_at_most(tolerance.spec_times(tolerance))
}

/// Handle number `i` is in reach, no other is nearer, and among those that are
/// as near it is the first.
pub open spec fn is_closest<S: Scalar>(
    handles: Seq<(EditHandle, Vec2D<S>)>,
    pos: Vec2D<S>,
    tolerance: S,
    i: int,
) -> bool {
    &&& handle_in_reach(handles, pos, tolerance, i)
    &&& forall|j: int|
        #[trigger] handle_in_reach(handles, pos, tolerance, j) ==> {
            &&& !handle_distance2(handles[j], pos).spec_sorts_before(
                handle_distance2(handles[i], pos),
            )
            &&& j < i ==> handle_distance2(handles[i], pos).spec_sorts_before(
                handle_distance2(handles[j], pos),
            )
        }
}

/// The handle that is nearest to `pos`, if one is in reach.
pub open spec fn spec_closest_handle<S: Scalar>(
    handles: Seq<(EditHandle, Vec2D<S>)>,
    pos: Vec2D<S>,
    tolerance: S,
) -> Option<EditHandle> {
    if exists|i: int| is_closest(handles, pos, tolerance, i) {
        Some(handles[choose|i: int| is_closest(handles, pos, tolerance, i)].0)
    } else {
        None
    }
}

/// Only one handle is the closest.
pub proof fn lemma_closest_unique<S: Scalar>(
    handles: Seq<(EditHandle, Vec2D<S>)>,
    pos: Vec2D<S>,
    tolerance: S,
    i: int,
    j: int,
)
    requires
        is_closest(handles, pos, tolerance, i),
        is_closest(handles, pos, tolerance, j),
    ensures
        i == j,
{
    assert(handle_in_reach(handles, pos, tolerance, i));
    assert(handle_in_reach(handles, pos, tolerance, j));
}

/// The nearest handle within `tolerance` of `pos`; of several that are equally
/// near, the first.
pub fn closest_handle<S: Scalar>(
    handles: &[(EditHandle, Vec2D<S>)],
    pos: Vec2D<S>,
    tolerance: S,
) -> (r: Option<EditHandle>)
    ensures
        r == spec_closest_handle(handles@, pos, tolerance),
        r is None <==> forall|i: int| !handle_in_reach(handles@, pos, tolerance, i),
{
    let tolerance2 = tolerance.times(tolerance);
    let mut best: Option<(usize, S)> = None;
    let mut k: usize = 0;
    while k < handles.len()
        invariant
            k <= handles@.len(),
            tolerance2 == tolerance.spec_times(tolerance),
            match best {
                None => forall|i: int| 0 <= i < k ==> !handle_in_reach(handles@, pos, tolerance, i),
                Some((b, d)) => {
                    &&& b < k
                    &&& d == handle_distance2(handles@[b as int], pos)
                    &&& is_closest(handles@.take(k as int), pos, tolerance, b as int)
                },
            },
        decreases handles@.len() - k,
    {
        let distance2 = handles[k].1.minus(pos).norm2();
        let ghost before = handles@.take(k as int);
        let ghost after = handles@.take(k as int + 1);
        assert(forall|i: int| 0 <= i < k ==> before[i] == after[i]);
        let ghost previous = best;
        if distance2.at_most(tolerance2) {
            let nearer = match best {
                None => true,
                Some((_, d)) => distance2.sorts_before(d),
            };
            if nearer {
                best = Some((k, distance2));
            }
        }
        proof {
            assert(after[k as int] == handles@[k as int]);
            assert forall|i: int| 0 <= i < k implies handle_in_reach(before, pos, tolerance, i)
                == handle_in_reach(after, pos, tolerance, i) by {}
            if let Some((b, d)) = best {
                assert forall|j: int| #[trigger]
                    handle_in_reach(after, pos, tolerance, j) implies {
                    &&& !handle_distance2(after[j], pos).spec_sorts_before(d)
                    &&& j < b ==> d.spec_sorts_before(handle_distance2(after[j], pos))
                } by {
                    let dj = handle_distance2(after[j], pos);
                    S::lemma_sorts_one_way(d, dj);
                    if j < k {
                        assert(handle_in_reach(before, pos, tolerance, j));
                        if b == k {
                            if let Some((_, d0)) = previous {
                                S::lemma_sorts_through(d, d0, dj);
                            } else {
                                assert(handle_in_reach(handles@, pos, tolerance, j));
                            }
                        }
                    }
                }
                assert(is_closest(after, pos, tolerance, b as int));
            }
        }
        k = k + 1;
    }
    proof {
        assert(handles@.take(k as int) =~= handles@);
        if let Some((b, _)) = best {
            assert(is_closest(handles@, pos, tolerance, b as int));
            lemma_closest_unique(
                handles@,
                pos,
                tolerance,
                b as int,
                choose|i: int| is_closest(handles@, pos, tolerance, i),
            );
            assert(handle_in_reach(handles@, pos, tolerance, b as int));
        } else {
            assert forall|i: int| !handle_in_reach(handles@, pos, tolerance, i) by {}
        }
    }
    match best {
        None => None,
        Some((b, _)) => Some(handles[b].0),
    }
}

/// The handles of a box, each with its place.
pub open spec fn spec_box_handles<S: Scalar>(bounds: ObjectBounds<S>) -> Seq<
    (EditHandle, Vec2D<S>),
> {
    EditHandle::spec_box_handles().map_values(
        |handle: EditHandle| (handle, bounds.spec_handle_position(handle).unwrap()),
    )
}

pub fn box_handles<S: Scalar>(bounds: ObjectBounds<S>) -> (r: Vec<(EditHandle, Vec2D<S>)>)
    ensures
        r@ == spec_box_handles(bounds),
{
    let handles = EditHandle::box_handles();
    let mut r: Vec<(EditHandle, Vec2D<S>)> = Vec::new();
    let mut k: usize = 0;
    while k < 8
        invariant
            k <= 8,
            handles@ == EditHandle::spec_box_handles(),
            r@ == spec_box_handles(bounds).take(k as int),
        decreases 8 - k,
    {
        let handle = handles[k];
        assert(handle.on_box());
        if let Some(pos) = bounds.handle_position(handle) {
            r.push((handle, pos));
        }
        assert(spec_box_handles(bounds).take(k as int + 1) =~= spec_box_handles(bounds).take(
            k as int,
        ).push(spec_box_handles(bounds)[k as int]));
        k = k + 1;
    }
    assert(spec_box_handles(bounds).take(8) =~= spec_box_handles(bounds));
    r
}

/// `value`, displaced by `delta` if `moved`.
pub open spec fn displaced<S: Scalar>(moved: bool, value: S, delta: S) -> S {
    if moved {
        value.spec_plus(delta)
    } else {
        value
    }
}

/// The box after one handle was dragged by `delta`: the edges that the handle
/// touches move with it, and the others stay.
pub open spec fn spec_resize_box<S: Scalar>(
    bounds: ObjectBounds<S>,
    handle: EditHandle,
    delta: Vec2D<S>,
) -> ObjectBounds<S> {
    let far = bounds.spec_bottom_right();
    ObjectBounds::spec_from_points(
        Vec2D {
            x: displaced(handle.moves_left(), bounds.top_left.x, delta.x),
            y: displaced(handle.moves_top(), bounds.top_left.y, delta.y),
        },
        Vec2D {
            x: displaced(handle.moves_right(), far.x, delta.x),
            y: displaced(handle.moves_bottom(), far.y, delta.y),
        },
    )
}

pub fn resize_box<S: Scalar>(bounds: ObjectBounds<S>, handle: EditHandle, delta: Vec2D<S>) -> (r:
    ObjectBounds<S>)
    ensures
        r == spec_resize_box(bounds, handle, delta),
        r.is_positive(),
{
    let mut top_left = bounds.top_left;
    let mut bottom_right = bounds.bottom_right();

    match handle {
        EditHandle::TopLeft => {
            top_left = top_left.plus(delta);
        },
        EditHandle::Top => {
            top_left.y = top_left.y.plus(delta.y);
        },
        EditHandle::TopRight => {
            top_left.y = top_left.y.plus(delta.y);
            bottom_right.x = bottom_right.x.plus(delta.x);
        },
        EditHandle::Right => {
            bottom_right.x = bottom_right.x.plus(delta.x);
        },
        EditHandle::BottomRight => {
            bottom_right = bottom_right.plus(delta);
        },
        EditHandle::Bottom => {
            bottom_right.y = bottom_right.y.plus(delta.y);
        },
        EditHandle::BottomLeft => {
            top_left.x = top_left.x.plus(delta.x);
            bottom_right.y = bottom_right.y.plus(delta.y);
        },
        EditHandle::Left => {
            top_left.x = top_left.x.plus(delta.x);
        },
        EditHandle::Start | EditHandle::End => {},
    }

    ObjectBounds::from_points(top_left, bottom_right)
}

/// `t`, held between zero and one.
pub open spec fn spec_unit_clamp<S: Scalar>(t: S) -> S {
    if t.spec_less_than(S::spec_from_int(0)) {
        S::spec_from_int(0)
    } else if S::spec_from_int(1).spec_less_than(t) {
        S::spec_from_int(1)
    } else {
        t
    }
}

/// The point of the segment that is nearest to `point`; the start of a segment
/// that has no length.
pub open spec fn nearest_on_segment<S: Scalar>(
    point: Vec2D<S>,
    start: Vec2D<S>,
    end: Vec2D<S>,
) -> Vec2D<S> {
    let segment = end.spec_minus(start);
    let len2 = segment.spec_norm2();
    if len2.spec_at_most(S::spec_epsilon()) {
        start
    } else {
        let to_point = point.spec_minus(start);
        let along = to_point.x.spec_times(segment.x).spec_plus(to_point.y.spec_times(segment.y));
        start.spec_plus(segment.spec_times(spec_unit_clamp(along.spec_over(len2))))
    }
}

/// The distance between `point` and the segment is at most `tolerance`.
pub open spec fn spec_point_near_segment<S: Scalar>(
    point: Vec2D<S>,
    start: Vec2D<S>,
    end: Vec2D<S>,
    tolerance: S,
) -> bool {
    point.spec_distance_to(nearest_on_segment(point, start, end)).spec_at_most(tolerance)
}

pub fn point_near_segment<S: Scalar>(
    point: Vec2D<S>,
    start: Vec2D<S>,
    end: Vec2D<S>,
    tolerance: S,
) -> (r: bool)
    ensures
        r == spec_point_near_segment(point, start, end, tolerance),
{
    let segment = end.minus(start);
    let len2 = segment.norm2();
    if len2.at_most(S::epsilon()) {
        return point.distance_to(start).at_most(tolerance);
    }
    let to_point = point.minus(start);
    let along = to_point.x.times(segment.x).plus(to_point.y.times(segment.y));
    let zero = S::from_int(0);
    let one = S::from_int(1);
    let mut t = along.over(len2);
    if t.less_than(zero) {
        t = zero;
    } else if one.less_than(t) {
        t = one;
    }
    let closest = start.plus(segment.times(t));
    point.distance_to(closest).at_most(tolerance)
}

/// The outline of a box, and how wide it is drawn.
#[derive(Debug, Clone, Copy, PartialEq)]
pub struct BoundsOutline<S> {
    pub bounds: ObjectBounds<S>,
    pub line_width: S,
}

/// A handle: a filled circle with a border.
#[derive(Debug, Clone, Copy, PartialEq)]
pub struct HandleDot<S> {
    pub center: Vec2D<S>,
    pub radius: S,
    pub line_width: S,
}

/// A length on the screen, given in half pixels, in image coordinates. Very small
/// scales of the image count as one hundredth.
pub open spec fn screen_length<S: Scalar>(half_pixels: i64, average_scale: S) -> S {
    let smallest = S::spec_from_int(1).spec_over(S::spec_from_int(100));
    S::spec_from_int(half_pixels).spec_over(S::spec_from_int(2)).spec_over(
        average_scale.spec_larger_of(smallest),
    )
}

fn compute_screen_length<S: Scalar>(half_pixels: i64, average_scale: S) -> (r: S)
    ensures
        r == screen_length(half_pixels, average_scale),
{
    let smallest = S::from_int(1).over(S::from_int(100));
    S::from_int(half_pixels).over(S::from_int(2)).over(average_scale.larger_of(smallest))
}

pub open spec fn handle_dot<S: Scalar>(center: Vec2D<S>, average_scale: S) -> HandleDot<S> {
    HandleDot {
        center,
        radius: screen_length(10, average_scale),
        line_width: screen_length(3, average_scale),
    }
}

/// What is drawn for the handles of an object: circles that are five pixels large
/// on the screen, whatever the scale of the image.
pub fn draw_handles<S: Scalar>(handles: &[(EditHandle, Vec2D<S>)], average_scale: S) -> (r: Vec<
    HandleDot<S>,
>)
    ensures
        r@ == handles@.map_values(|h: (EditHandle, Vec2D<S>)| handle_dot(h.1, average_scale)),
{
    let mut dots: Vec<HandleDot<S>> = Vec::new();
    let mut k: usize = 0;
    while k < handles.len()
        invariant
            k <= handles@.len(),
            dots@ =~= handles@.take(k as int).map_values(
                |h: (EditHandle, Vec2D<S>)| handle_dot(h.1, average_scale),
            ),
        decreases handles@.len() - k,
    {
        dots.push(
            HandleDot {
                center: handles[k].1,
                radius: compute_screen_length(10, average_scale),
                line_width: compute_screen_length(3, average_scale),
            },
        );
        k = k + 1;
    }
    assert(handles@.take(k as int) =~= handles@);
    dots
}

/// What is drawn around an object: its box, with a line that is one and a half
/// pixels wide on the screen.
pub fn draw_bounds<S: Scalar>(bounds: ObjectBounds<S>, average_scale: S) -> (r: BoundsOutline<S>)
    ensures
        r == (BoundsOutline { bounds, line_width: screen_length(3, average_scale) }),
{
    BoundsOutline { bounds, line_width: compute_screen_length(3, average_scale) }
}

} // verus!

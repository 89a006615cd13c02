//! What drags of objects are for: they take hold of what is under the pointer, and
//! what was taken hold of follows the pointer.
use vstd::prelude::*;

use crate::femtovg_area::imp::{lemma_topmost_body, lemma_topmost_handle};
use crate::femtovg_area::laws::well_behaved;
use crate::femtovg_area::state::{
    body_hit, handle_hit, AreaState, ObjectEditAction, TransformSession,
};
use crate::fixed::Fixed;
use crate::math::{counts_exactly, Scalar, Vec2D};
use crate::style::StyleChange;
use crate::tools::edit::{handle_in_reach, is_closest, spec_closest_handle, EditHandle};
use crate::tools::hits::lemma_found_handle_is_nearest;
use crate::tools::laws::{same_point, vector_within};
use crate::tools::line::Line;
use crate::tools::{handles_of, Drawable};

verus! {

/// The object at `index` is `after`, and the others are where they were.
pub open spec fn only_changed<D>(before: Seq<D>, after: Seq<D>, index: int, object: D) -> bool {
    &&& after.len() == before.len()
    &&& 0 <= index < after.len()
    &&& after[index] == object
    &&& forall|i: int| 0 <= i < after.len() && i != index ==> #[trigger] after[i] == before[i]
}

/// Objects to which the beginning and the end of a session mean nothing.
pub open spec fn plain_sessions<S: Scalar, D: Drawable<S>>() -> bool {
    &&& forall|d: D| (#[trigger] d.spec_begin_edit_session()) == d
    &&& forall|d: D| (#[trigger] d.spec_end_edit_session()) == d
}

/// A drag that moves an object displaces that object by the length of the drag, and a
/// drag by a handle displaces that handle of it; both while it goes on and when it
/// ends. No other object is touched.
pub proof fn lemma_drag_edits_what_it_holds<S: Scalar, D: Drawable<S>>(
    s: AreaState<S, D>,
    index: usize,
    before: D,
    handle: EditHandle,
    delta: Vec2D<S>,
)
    requires
        well_behaved::<S, D>(),
        plain_sessions::<S, D>(),
        index < s.drawables.len(),
    ensures
        ({
            let action = ObjectEditAction::Move;
            let moving = AreaState {
                transform_session: Some(TransformSession { index, action, before }),
                ..s
            };
            let moved = before.spec_move_by(delta).0;
            &&& only_changed(
                s.drawables,
                moving.apply_transform_session(delta, true).0.drawables,
                index as int,
                moved,
            )
            &&& only_changed(
                s.drawables,
                moving.pointer_end_drag(delta).0.drawables,
                index as int,
                moved,
            )
        }),
        ({
            let action = ObjectEditAction::Resize(handle);
            let resizing = AreaState {
                transform_session: Some(TransformSession { index, action, before }),
                ..s
            };
            let resized = before.spec_resize(handle, delta).0;
            &&& only_changed(
                s.drawables,
                resizing.apply_transform_session(delta, true).0.drawables,
                index as int,
                resized,
            )
            &&& only_changed(
                s.drawables,
                resizing.pointer_end_drag(delta).0.drawables,
                index as int,
                resized,
            )
        }),
{
}

/// The handles of the line that `moves` picks out are displaced by `delta`, and the
/// others stay. Nothing else about the line changes.
pub open spec fn handles_follow<S: Scalar>(
    before: Line<S>,
    after: Line<S>,
    moves: spec_fn(EditHandle) -> bool,
    delta: Vec2D<S>,
) -> bool {
    &&& after.style == before.style
    &&& handles_of(after).len() == handles_of(before).len()
    &&& forall|i: int|
        0 <= i < handles_of(before).len() ==> {
            let (handle, place) = #[trigger] handles_of(before)[i];
            &&& handles_of(after)[i].0 == handle
            &&& same_point(
                handles_of(after)[i].1,
                if moves(handle) {
                    place.spec_plus(delta)
                } else {
                    place
                },
            )
        }
}

/// One coordinate of the two ends of a line.
proof fn lemma_coordinates_follow<S: Scalar>(
    count: spec_fn(S) -> Option<int>,
    limit: int,
    bound: int,
    start: S,
    direction: S,
    delta: S,
)
    requires
        counts_exactly(count, limit),
        8 * bound <= limit,
        vector_within(count, Vec2D { x: start, y: direction }, bound),
        vector_within(count, Vec2D { x: delta, y: delta }, bound),
    ensures
        ({
            let end = start.spec_plus(direction);
            let moved = start.spec_plus(delta);
            let toward = end.spec_minus(moved);
            &&& start.spec_same_as(start)
            &&& moved.spec_same_as(moved)
            &&& end.spec_same_as(end)
            &&& moved.spec_plus(toward).spec_same_as(end)
            &&& start.spec_plus(direction.spec_plus(delta)).spec_same_as(end.spec_plus(delta))
            &&& moved.spec_plus(direction).spec_same_as(end.spec_plus(delta))
            &&& delta.spec_same_as(S::spec_from_int(0)) ==> {
                &&& start.spec_same_as(moved)
                &&& end.spec_same_as(end.spec_plus(delta))
            }
        }),
{
    let end = start.spec_plus(direction);
    assert(count(end) == Some(count(start)->0 + count(direction)->0));
    let moved = start.spec_plus(delta);
    assert(count(moved) == Some(count(start)->0 + count(delta)->0));
    let toward = end.spec_minus(moved);
    assert(count(toward) == Some(count(direction)->0 - count(delta)->0));
    assert(count(moved.spec_plus(toward)) == count(end));
    let longer = direction.spec_plus(delta);
    assert(count(longer) == Some(count(direction)->0 + count(delta)->0));
    let end_moved = end.spec_plus(delta);
    assert(count(end_moved) == Some(count(end)->0 + count(delta)->0));
    assert(count(start.spec_plus(longer)) == count(end_moved));
    assert(count(moved.spec_plus(direction)) == count(end_moved));
}

/// Dragging one end of a line moves that end with the pointer and leaves the other
/// one in place; dragging the line moves both. This holds at every step of the drag
/// and at its end, and no other line changes.
pub proof fn lemma_dragged_line_follows<S: Scalar>(
    count: spec_fn(S) -> Option<int>,
    limit: int,
    bound: int,
    s: AreaState<S, Line<S>>,
    session: TransformSession<Line<S>>,
    delta: Vec2D<S>,
)
    requires
        counts_exactly(count, limit),
        8 * bound <= limit,
        s.transform_session == Some(session),
        session.index < s.drawables.len(),
        session.before.direction is Some,
        vector_within(count, session.before.start, bound),
        vector_within(count, session.before.direction->0, bound),
        vector_within(count, delta, bound),
    ensures
        ({
            let moves = |h: EditHandle|
                session.action is Move || session.action == ObjectEditAction::Resize(h);
            let shown = s.apply_transform_session(delta, true).0.drawables;
            let left = s.pointer_end_drag(delta).0.drawables;
            let i = session.index as int;
            &&& handles_follow(session.before, shown[i], moves, delta)
            &&& handles_follow(session.before, left[i], moves, delta)
            &&& only_changed(s.drawables, shown, i, shown[i])
            &&& only_changed(s.drawables, left, i, left[i])
        }),
{
    let line = session.before;
    let direction = line.direction->0;
    lemma_coordinates_follow(count, limit, bound, line.start.x, direction.x, delta.x);
    lemma_coordinates_follow(count, limit, bound, line.start.y, direction.y, delta.y);
    assert(handles_of(line).len() == 2);
    assert(handles_of(line)[0] == (EditHandle::Start, line.start));
    assert(handles_of(line)[1] == (EditHandle::End, line.start.spec_plus(direction)));
    let moves = |h: EditHandle|
        session.action is Move || session.action == ObjectEditAction::Resize(h);
    let shown = s.apply_transform_session(delta, true).0.drawables[session.index as int];
    let left = s.pointer_end_drag(delta).0.drawables[session.index as int];
    assert(shown == left);
    assert(shown.direction is Some);
    assert(handles_of(shown)[0] == (EditHandle::Start, shown.start));
    assert(handles_of(shown)[1] == (
        EditHandle::End,
        shown.start.spec_plus(shown.direction->0),
    ));
    assert forall|i: int| 0 <= i < handles_of(line).len() implies {
        let (handle, place) = #[trigger] handles_of(line)[i];
        &&& handles_of(shown)[i].0 == handle
        &&& same_point(
            handles_of(shown)[i].1,
            if moves(handle) {
                place.spec_plus(delta)
            } else {
                place
            },
        )
    } by {
        assert(i == 0 || i == 1);
    }
}

/// A line is dragged by a handle that it has.
proof fn lemma_handle_belongs_to_line<S: Scalar>(line: Line<S>, pos: Vec2D<S>, tolerance: S)
    requires
        spec_closest_handle(handles_of(line), pos, tolerance) is Some,
    ensures
        line.direction is Some,
        ({
            let handle = spec_closest_handle(handles_of(line), pos, tolerance)->0;
            handle is Start || handle is End
        }),
{
    let i = choose|i: int| is_closest(handles_of(line), pos, tolerance, i);
    assert(handle_in_reach(handles_of(line), pos, tolerance, i));
}

/// The drag of an end of the selected line, from the first touch to the release: the
/// end that was touched goes with the pointer, and the other one stays.
pub proof fn lemma_selected_line_is_dragged_by_its_end<S: Scalar>(
    count: spec_fn(S) -> Option<int>,
    limit: int,
    bound: int,
    s: AreaState<S, Line<S>>,
    pos: Vec2D<S>,
    delta: Vec2D<S>,
    index: usize,
    handle: EditHandle,
)
    requires
        counts_exactly(count, limit),
        8 * bound <= limit,
        index < s.drawables.len(),
        s.selection_focus.selected == Some(index),
        spec_closest_handle(
            handles_of(s.drawables[index as int]),
            pos,
            s.object_hit_tolerance(),
        ) == Some(handle),
        vector_within(count, s.drawables[index as int].start, bound),
        vector_within(count, s.drawables[index as int].direction->0, bound),
        vector_within(count, delta, bound),
    ensures
        ({
            let line = s.drawables[index as int];
            let moves = |h: EditHandle| h == handle;
            let begun = s.pointer_begin_drag(pos).0;
            let shown = begun.apply_transform_session(delta, true).0.drawables;
            let left = begun.pointer_end_drag(delta).0.drawables;
            let i = index as int;
            &&& handles_follow(line, shown[i], moves, delta)
            &&& handles_follow(line, left[i], moves, delta)
            &&& only_changed(s.drawables, shown, i, shown[i])
            &&& only_changed(s.drawables, left, i, left[i])
        }),
{
    let line = s.drawables[index as int];
    lemma_handle_belongs_to_line(line, pos, s.object_hit_tolerance());
    let begun = s.pointer_begin_drag(pos).0;
    let session = begun.transform_session->0;
    lemma_dragged_line_follows(count, limit, bound, begun, session, delta);
    let held = |h: EditHandle|
        session.action is Move || session.action == ObjectEditAction::Resize(h);
    let moves = |h: EditHandle| h == handle;
    assert(forall|h: EditHandle| #[trigger] held(h) == moves(h));
}

/// The nearest of the handles lies within the tolerance, and is the one with number
/// `i`.
pub open spec fn nearest_in_reach(
    handles: Seq<(EditHandle, Vec2D<Fixed>)>,
    pos: Vec2D<Fixed>,
    tolerance: Fixed,
    i: int,
) -> bool {
    &&& 0 <= i < handles.len()
    &&& handles[i].1.spec_minus(pos).spec_norm2().raw <= tolerance.spec_times(tolerance).raw
    &&& forall|j: int|
        0 <= j < handles.len() ==> handles[i].1.spec_minus(pos).spec_norm2().raw <= (
        #[trigger] handles[j]).1.spec_minus(pos).spec_norm2().raw
}

/// No handle of the object lies within the tolerance.
pub open spec fn out_of_reach<D: Drawable<Fixed>>(
    object: D,
    pos: Vec2D<Fixed>,
    tolerance: Fixed,
) -> bool {
    forall|j: int|
        0 <= j < handles_of(object).len() ==> (#[trigger] handles_of(object)[j]).1.spec_minus(
            pos,
        ).spec_norm2().raw > tolerance.spec_times(tolerance).raw
}

/// The object can be edited, and the point touches it.
pub open spec fn touched<D: Drawable<Fixed>>(
    object: D,
    pos: Vec2D<Fixed>,
    tolerance: Fixed,
) -> bool {
    object.spec_edit_bounds() is Some && object.spec_hit_test(pos, tolerance)
}

/// A drag takes hold of the nearest handle of the selected object, if one is in reach;
/// otherwise of the topmost object that the pointer touches, which is then selected;
/// otherwise of nothing, and nothing is selected.
pub proof fn lemma_drag_takes_hold<D: Drawable<Fixed>>(s: AreaState<Fixed, D>, pos: Vec2D<Fixed>)
    requires
        s.drawables.len() <= usize::MAX,
        s.selection_focus.selected matches Some(index) ==> index < s.drawables.len(),
    ensures
        ({
            let t = s.pointer_begin_drag(pos).0;
            let tolerance = s.object_hit_tolerance();
            match t.transform_session {
                Some(session) => {
                    let object = s.drawables[session.index as int];
                    &&& session.index < s.drawables.len()
                    &&& session.before == object.spec_edit_snapshot()
                    &&& t.selection_focus.selected == Some(session.index)
                    &&& match session.action {
                        ObjectEditAction::Resize(handle) => {
                            &&& s.selection_focus.selected == Some(session.index)
                            &&& exists|i: int|
                                #[trigger] nearest_in_reach(handles_of(object), pos, tolerance, i)
                                    && handles_of(object)[i].0 == handle
                        },
                        ObjectEditAction::Move => {
                            &&& s.selection_focus.selected matches Some(selected) ==> out_of_reach(
                                s.drawables[selected as int],
                                pos,
                                tolerance,
                            )
                            &&& touched(object, pos, tolerance)
                            &&& forall|j: int|
                                session.index < j < s.drawables.len() ==> !touched(
                                    #[trigger] s.drawables[j],
                                    pos,
                                    tolerance,
                                )
                        },
                    }
                },
                None => {
                    &&& t.selection_focus.selected is None
                    &&& forall|j: int|
                        0 <= j < s.drawables.len() ==> !touched(
                            #[trigger] s.drawables[j],
                            pos,
                            tolerance,
                        )
                },
            }
        }),
{
    let tolerance = s.object_hit_tolerance();
    lemma_topmost_body(s.drawables, pos, tolerance);
    if let Some(selected) = s.selection_focus.selected {
        let handles = handles_of(s.drawables[selected as int]);
        lemma_found_handle_is_nearest(handles, pos, tolerance);
        if spec_closest_handle(handles, pos, tolerance) is Some {
            let handle = spec_closest_handle(handles, pos, tolerance)->0;
            let i = choose|i: int|
                0 <= i < handles.len() && (#[trigger] handles[i]).0 == handle && handles[i].1.spec_minus(
                    pos,
                ).spec_norm2().raw <= tolerance.spec_times(tolerance).raw && forall|j: int|
                    0 <= j < handles.len() ==> handles[i].1.spec_minus(pos).spec_norm2().raw <= (
                    #[trigger] handles[j]).1.spec_minus(pos).spec_norm2().raw;
            assert(nearest_in_reach(handles, pos, tolerance, i));
        }
    }
    let t = s.pointer_begin_drag(pos).0;
    assert forall|j: int| 0 <= j < s.drawables.len() implies touched(
        #[trigger] s.drawables[j],
        pos,
        tolerance,
    ) == body_hit(s.drawables[j], pos, tolerance) by {}
}

/// With the temporary pointer, a drag takes hold of the nearest handle of the topmost
/// object that has one in reach; otherwise of the topmost object that the pointer
/// touches; otherwise of nothing.
pub proof fn lemma_temporary_drag_takes_hold<D: Drawable<Fixed>>(
    s: AreaState<Fixed, D>,
    pos: Vec2D<Fixed>,
)
    requires
        s.drawables.len() <= usize::MAX,
    ensures
        ({
            let t = s.temporary_pointer_begin_drag(pos).0;
            let tolerance = s.object_hit_tolerance();
            match t.transform_session {
                Some(session) => {
                    let object = s.drawables[session.index as int];
                    &&& session.index < s.drawables.len()
                    &&& session.before == object.spec_edit_snapshot()
                    &&& t.selection_focus.selected is None
                    &&& t.selection_focus.focused == Some(session.index)
                    &&& match session.action {
                        ObjectEditAction::Resize(handle) => {
                            &&& exists|i: int|
                                #[trigger] nearest_in_reach(handles_of(object), pos, tolerance, i)
                                    && handles_of(object)[i].0 == handle
                            &&& forall|j: int|
                                session.index < j < s.drawables.len() ==> out_of_reach(
                                    #[trigger] s.drawables[j],
                                    pos,
                                    tolerance,
                                )
                        },
                        ObjectEditAction::Move => {
                            &&& forall|j: int|
                                0 <= j < s.drawables.len() ==> out_of_reach(
                                    #[trigger] s.drawables[j],
                                    pos,
                                    tolerance,
                                )
                            &&& touched(object, pos, tolerance)
                            &&& forall|j: int|
                                session.index < j < s.drawables.len() ==> !touched(
                                    #[trigger] s.drawables[j],
                                    pos,
                                    tolerance,
                                )
                        },
                    }
                },
                None => forall|j: int|
                    0 <= j < s.drawables.len() ==> {
                        &&& !touched(#[trigger] s.drawables[j], pos, tolerance)
                        &&& out_of_reach(s.drawables[j], pos, tolerance)
                    },
            }
        }),
{
    let tolerance = s.object_hit_tolerance();
    lemma_topmost_body(s.drawables, pos, tolerance);
    lemma_topmost_handle(s.drawables, pos, tolerance);
    assert forall|j: int| 0 <= j < s.drawables.len() implies {
        &&& touched(#[trigger] s.drawables[j], pos, tolerance)
            == body_hit(s.drawables[j], pos, tolerance)
        &&& handle_hit(s.drawables[j], pos, tolerance) is None
            ==> out_of_reach(s.drawables[j], pos, tolerance)
    } by {
        lemma_found_handle_is_nearest(handles_of(s.drawables[j]), pos, tolerance);
    }
    let t = s.temporary_pointer_begin_drag(pos).0;
    if let Some(session) = t.transform_session {
        if let ObjectEditAction::Resize(handle) = session.action {
            let handles = handles_of(s.drawables[session.index as int]);
            lemma_found_handle_is_nearest(handles, pos, tolerance);
            let i = choose|i: int|
                0 <= i < handles.len() && (#[trigger] handles[i]).0 == handle && handles[i].1.spec_minus(
                    pos,
                ).spec_norm2().raw <= tolerance.spec_times(tolerance).raw && forall|j: int|
                    0 <= j < handles.len() ==> handles[i].1.spec_minus(pos).spec_norm2().raw <= (
                    #[trigger] handles[j]).1.spec_minus(pos).spec_norm2().raw;
            assert(nearest_in_reach(handles, pos, tolerance, i));
        }
    }
}

/// A change of the style that follows a drawing reaches what was drawn, and nothing else.
pub proof fn lemma_style_reaches_the_newest_object<S: Scalar, D: Drawable<S>>(
    s: AreaState<S, D>,
    drawable: D,
    change: StyleChange<S>,
)
    requires
        well_behaved::<S, D>(),
        s.drawables.len() < usize::MAX,
    ensures
        ({
            let t = s.commit(drawable);
            let (u, changed) = t.apply_style_change_to_target(change);
            &&& t.drawables == s.drawables.push(drawable)
            &&& t.selection_focus.selected is None
            &&& u.drawables == s.drawables.push(drawable.spec_apply_style_change(change).0)
            &&& changed == drawable.spec_apply_style_change(change).1
        }),
{
    let t = s.commit(drawable);
    let restyled = drawable.spec_apply_style_change(change).0;
    assert(t.apply_style_change_to_target(change).0.drawables =~= s.drawables.push(restyled));
}

/// An object is told of the beginning of a change that is only shown, and of the end of
/// one that stays.
pub proof fn lemma_objects_are_told_of_sessions<S: Scalar, D: Drawable<S>>(
    s: AreaState<S, D>,
    session: TransformSession<D>,
    delta: Vec2D<S>,
)
    requires
        s.transform_session == Some(session),
        session.index < s.drawables.len(),
        session.action is Move,
    ensures
        ({
            let i = session.index as int;
            let copy = session.before.spec_edit_snapshot();
            let shown = s.apply_transform_session(delta, true).0.drawables[i];
            let left = s.pointer_end_drag(delta).0.drawables[i];
            let (preview, shows) = copy.spec_begin_edit_session().spec_move_by(delta);
            let (moved, stays) = copy.spec_move_by(delta);
            &&& shows ==> shown == preview.spec_invalidate_edit_cache()
            &&& stays ==> left == moved.spec_end_edit_session()
            &&& s.apply_transform_session(delta, true).1 == shows
            &&& s.pointer_end_drag(delta).1 == stays
        }),
{
}

} // verus!

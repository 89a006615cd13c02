//! What holds of the canvas across operations: changes can be taken back and
//! made again, drags leave no trace unless they change something, and what the
//! cursor shows is what a drag does.
use vstd::prelude::*;

use crate::femtovg_area::imp::{lemma_topmost_body, lemma_topmost_handle};
use crate::femtovg_area::state::{
    body_hit, centered, fit_scale, inserted, shown, spec_cursor_for_handle, AreaState, HistoryStep,
    ObjectEditAction, PointerCursor, SelectionFocusState, TransformSession,
};
use crate::fixed::{Fixed, STEPS};
use crate::math::{Scalar, Vec2D};
use crate::style::StyleChange;
use crate::tools::edit::EditHandle;
use crate::tools::line::Line;
use crate::tools::{Drawable, Tools};

verus! {

/// Objects that are values: a copy is the object itself, being put aside or
/// brought back does not change them, and neither does an edit that they refuse.
pub open spec fn well_behaved<S: Scalar, D: Drawable<S>>() -> bool {
    &&& forall|d: D| (#[trigger] d.spec_edit_snapshot()) == d
    &&& forall|d: D| (#[trigger] d.spec_handle_undo()) == d
    &&& forall|d: D| (#[trigger] d.spec_handle_redo()) == d
    &&& forall|d: D| (#[trigger] d.spec_invalidate_edit_cache()) == d
    &&& forall|d: D, delta: Vec2D<S>|
        !(#[trigger] d.spec_move_by(delta)).1 ==> d.spec_move_by(delta).0 == d
    &&& forall|d: D, handle: EditHandle, delta: Vec2D<S>|
        !(#[trigger] d.spec_resize(handle, delta)).1 ==> d.spec_resize(handle, delta).0 == d
    &&& forall|d: D, change: StyleChange<S>|
        !(#[trigger] d.spec_apply_style_change(change)).1 ==> d.spec_apply_style_change(change).0
            == d
}

/// Lines are values.
pub proof fn lemma_lines_are_well_behaved<S: Scalar>()
    ensures
        well_behaved::<S, Line<S>>(),
{
}

/// The steps, taken back from the last to the first, fit the objects.
pub open spec fn undoable<D>(drawables: Seq<D>, history: Seq<HistoryStep<D>>) -> bool
    decreases history.len(),
{
    history.len() > 0 ==> match history.last() {
        HistoryStep::Add { index, drawable } => {
            &&& drawable is None
            &&& index < drawables.len()
            &&& undoable(drawables.remove(index as int), history.drop_last())
        },
        HistoryStep::Modify { index, before, after } => {
            &&& index < drawables.len()
            &&& drawables[index as int] == after
            &&& undoable(drawables.update(index as int, before), history.drop_last())
        },
        HistoryStep::Reset { drawables: removed } => {
            &&& drawables.len() == 0
            &&& undoable(removed, history.drop_last())
        },
    }
}

/// The steps, made again from the last to the first, fit the objects.
pub open spec fn redoable<D>(drawables: Seq<D>, redo_history: Seq<HistoryStep<D>>) -> bool
    decreases redo_history.len(),
{
    redo_history.len() > 0 ==> match redo_history.last() {
        HistoryStep::Add { index, drawable } => {
            &&& drawable is Some
            &&& index <= drawables.len()
            &&& redoable(
                drawables.insert(index as int, drawable->0),
                redo_history.drop_last(),
            )
        },
        HistoryStep::Modify { index, before, after } => {
            &&& index < drawables.len()
            &&& drawables[index as int] == before
            &&& redoable(drawables.update(index as int, after), redo_history.drop_last())
        },
        HistoryStep::Reset { drawables: removed } => {
            &&& drawables == removed
            &&& redoable(Seq::<D>::empty(), redo_history.drop_last())
        },
    }
}

impl<S: Scalar, D: Drawable<S>> AreaState<S, D> {
    /// The objects without the displacement that a drag in progress shows.
    pub open spec fn settled(self) -> Seq<D> {
        match self.transform_session {
            Some(session) if session.index < self.drawables.len() => self.drawables.update(
                session.index as int,
                session.before,
            ),
            _ => self.drawables,
        }
    }

    /// No drag shows an object anywhere else than where it was.
    pub open spec fn at_rest(self) -> bool {
        self.settled() == self.drawables
    }

    /// Both histories fit the objects.
    pub open spec fn consistent(self) -> bool {
        &&& undoable(self.settled(), self.history)
        &&& redoable(self.settled(), self.redo_history)
    }
}

/// The histories of an image that was just opened fit its objects: there are none.
pub proof fn lemma_fresh_is_consistent<S: Scalar, D: Drawable<S>>(
    active_tool: Tools,
    image_width: i32,
    image_height: i32,
    input_scale: Option<S>,
)
    ensures
        AreaState::<S, D>::fresh(active_tool, image_width, image_height, input_scale).consistent(),
        AreaState::<S, D>::fresh(active_tool, image_width, image_height, input_scale).at_rest(),
        counted(AreaState::<S, D>::fresh(active_tool, image_width, image_height, input_scale)),
{
}

/// The steps, taken back from the last to the first, fit a canvas with `n` objects,
/// whatever these are.
pub open spec fn undo_counts<D>(n: nat, history: Seq<HistoryStep<D>>) -> bool
    decreases history.len(),
{
    history.len() > 0 ==> match history.last() {
        HistoryStep::Add { index, .. } => index < n && undo_counts(
            (n - 1) as nat,
            history.drop_last(),
        ),
        HistoryStep::Modify { index, .. } => index < n && undo_counts(n, history.drop_last()),
        HistoryStep::Reset { drawables } => n == 0 && undo_counts(
            drawables.len(),
            history.drop_last(),
        ),
    }
}

/// The steps, made again from the last to the first, fit a canvas with `n` objects,
/// whatever these are.
pub open spec fn redo_counts<D>(n: nat, redo_history: Seq<HistoryStep<D>>) -> bool
    decreases redo_history.len(),
{
    redo_history.len() > 0 ==> match redo_history.last() {
        HistoryStep::Add { index, drawable } => {
            &&& drawable is Some
            &&& index <= n
            &&& redo_counts(n + 1, redo_history.drop_last())
        },
        HistoryStep::Modify { index, .. } => index < n && redo_counts(n, redo_history.drop_last()),
        HistoryStep::Reset { drawables } => n == drawables.len() && redo_counts(
            0,
            redo_history.drop_last(),
        ),
    }
}

/// Both histories fit the number of objects.
pub open spec fn counted<S: Scalar, D: Drawable<S>>(s: AreaState<S, D>) -> bool {
    &&& undo_counts(s.drawables.len(), s.history)
    &&& redo_counts(s.drawables.len(), s.redo_history)
}

/// Every change, undo, redo, selection and drag keeps the histories fitting the
/// number of objects, whatever the objects make of it.
pub proof fn lemma_histories_stay_counted<S: Scalar, D: Drawable<S>>(
    s: AreaState<S, D>,
    drawable: D,
    change: StyleChange<S>,
    pos: Vec2D<S>,
    preview: bool,
    tool: Tools,
)
    requires
        counted(s),
        s.drawables.len() <= usize::MAX,
    ensures
        counted(s.commit(drawable)),
        counted(s.undo().0),
        counted(s.redo().0),
        counted(s.reset().0),
        counted(s.set_active_tool(tool)),
        counted(s.pointer_click(pos).0),
        counted(s.temporary_pointer_click(pos).0),
        counted(s.pointer_begin_drag(pos).0),
        counted(s.temporary_pointer_begin_drag(pos).0),
        counted(s.apply_transform_session(pos, preview).0),
        counted(s.pointer_end_drag(pos).0),
        counted(s.apply_style_change_to_target(change).0),
{
    assert(s.commit(drawable).history.drop_last() =~= s.history);
    assert(s.reset().1 ==> s.reset().0.history.drop_last() =~= s.history);
    if s.history.len() > 0 {
        assert(s.undo().0.redo_history.drop_last() =~= s.redo_history);
    }
    if s.redo_history.len() > 0 {
        assert(s.redo().0.history.drop_last() =~= s.history);
    }
    let dragged = s.pointer_end_drag(pos);
    assert(dragged.1 ==> dragged.0.history.drop_last() =~= s.history);
    let styled = s.apply_style_change_to_target(change);
    assert(styled.1 ==> styled.0.history.drop_last() =~= s.history);
}

/// What is on the canvas after the latest change was undone and redone: all objects
/// in their order, but the one that was taken off and put back has been told so,
/// and one that was changed is a copy of what the change had made of it.
pub open spec fn undone_and_redone<S: Scalar, D: Drawable<S>>(s: AreaState<S, D>) -> Seq<D> {
    match s.history.last() {
        HistoryStep::Add { index, .. } => s.drawables.update(
            index as int,
            s.drawables[index as int].spec_handle_undo().spec_handle_redo(),
        ),
        HistoryStep::Modify { index, after, .. } => s.drawables.update(index as int, shown(after)),
        HistoryStep::Reset { .. } => s.drawables,
    }
}

/// Whatever objects make of being put aside and brought back: the latest change can
/// be undone and redone, and then the objects are there again, in their order, and
/// the histories are as long as they were. Nothing is selected.
pub proof fn lemma_undo_then_redo_of_any_objects<S: Scalar, D: Drawable<S>>(s: AreaState<S, D>)
    requires
        counted(s),
        s.history.len() > 0,
    ensures
        s.undo().1,
        ({
            let (t, redone) = s.undo().0.redo();
            &&& redone
            &&& t.drawables == undone_and_redone(s)
            &&& t.drawables.len() == s.drawables.len()
            &&& t.history.len() == s.history.len()
            &&& t.history.drop_last() == s.history.drop_last()
            &&& t.redo_history == s.redo_history
            &&& t.selection_focus == SelectionFocusState::nothing()
            &&& t.transform_session is None
        }),
{
    let u = s.undo().0;
    let t = u.redo().0;
    assert(u.redo_history.drop_last() =~= s.redo_history);
    assert(t.history.drop_last() =~= s.history.drop_last());
    assert(t.drawables =~= undone_and_redone(s));
}

/// A change that was undone and redone leaves everything as it was, but for the
/// selection and the target of style changes, which are cleared.
pub proof fn lemma_undo_then_redo<S: Scalar, D: Drawable<S>>(s: AreaState<S, D>)
    requires
        well_behaved::<S, D>(),
        s.consistent(),
        s.at_rest(),
        s.history.len() > 0,
    ensures
        s.undo().1,
        s.undo().0.redo() == (s.clear_target(), true),
{
    let (t, _) = s.undo();
    assert(s.history =~= s.history.drop_last().push(s.history.last()));
    match s.history.last() {
        HistoryStep::Add { index, drawable } => {
            assert(inserted(s.drawables.remove(index as int), index, s.drawables[index as int])
                =~= s.drawables);
        },
        HistoryStep::Modify { index, before, after } => {
            assert(s.drawables.update(index as int, before).update(index as int, after)
                =~= s.drawables);
        },
        HistoryStep::Reset { drawables } => {
            assert(s.drawables =~= Seq::empty());
        },
    }
    assert(t.redo_history.drop_last() =~= s.redo_history);
    assert(t.redo().0 =~= s.clear_target());
}

/// A change that was redone and undone again leaves everything as it was, but for
/// the selection and the target of style changes, which are cleared.
pub proof fn lemma_redo_then_undo<S: Scalar, D: Drawable<S>>(s: AreaState<S, D>)
    requires
        well_behaved::<S, D>(),
        s.consistent(),
        s.at_rest(),
        s.redo_history.len() > 0,
    ensures
        s.redo().1,
        s.redo().0.undo() == (s.clear_target(), true),
{
    let (t, _) = s.redo();
    assert(s.redo_history =~= s.redo_history.drop_last().push(s.redo_history.last()));
    match s.redo_history.last() {
        HistoryStep::Add { index, drawable } => {
            let d = drawable->0;
            assert(t.drawables =~= s.drawables.insert(index as int, d));
            assert(t.drawables.remove(index as int) =~= s.drawables);
        },
        HistoryStep::Modify { index, before, after } => {
            assert(t.drawables.update(index as int, before) =~= s.drawables);
        },
        HistoryStep::Reset { drawables } => {
            assert(drawables.map_values(|d: D| d.spec_edit_snapshot().spec_handle_redo())
                =~= s.drawables);
        },
    }
    assert(t.history.drop_last() =~= s.history);
    assert(t.undo().0 =~= s.clear_target());
}

/// Undo and redo succeed exactly while there is something to undo or redo, and
/// keep the histories in step with the objects.
pub proof fn lemma_undo_and_redo_keep_consistency<S: Scalar, D: Drawable<S>>(s: AreaState<S, D>)
    requires
        well_behaved::<S, D>(),
        s.consistent(),
        s.at_rest(),
    ensures
        s.undo().1 <==> s.history.len() > 0,
        s.undo().0.consistent(),
        s.undo().0.at_rest(),
        s.redo().1 <==> s.redo_history.len() > 0,
        s.redo().0.consistent(),
        s.redo().0.at_rest(),
{
    if s.history.len() > 0 {
        let t = s.undo().0;
        assert(t.redo_history.drop_last() =~= s.redo_history);
        match s.history.last() {
            HistoryStep::Add { index, drawable } => {
                let rest = s.drawables.remove(index as int);
                assert(rest.insert(index as int, s.drawables[index as int]) =~= s.drawables);
            },
            HistoryStep::Modify { index, before, after } => {
                assert(s.drawables.update(index as int, before).update(index as int, after)
                    =~= s.drawables);
            },
            HistoryStep::Reset { drawables } => {
                assert(t.drawables =~= drawables);
                assert(s.drawables =~= Seq::empty());
            },
        }
    }
    if s.redo_history.len() > 0 {
        let t = s.redo().0;
        assert(t.history.drop_last() =~= s.history);
        match s.redo_history.last() {
            HistoryStep::Add { index, drawable } => {
                let d = drawable->0;
                assert(t.drawables =~= s.drawables.insert(index as int, d));
                assert(t.drawables.remove(index as int) =~= s.drawables);
            },
            HistoryStep::Modify { index, before, after } => {
                assert(t.drawables.update(index as int, before) =~= s.drawables);
            },
            HistoryStep::Reset { drawables } => {},
        }
    }
}

/// The state after `n` changes were taken back.
pub open spec fn undone<S: Scalar, D: Drawable<S>>(s: AreaState<S, D>, n: nat) -> AreaState<S, D>
    decreases n,
{
    if n == 0 {
        s
    } else {
        undone(s.undo().0, (n - 1) as nat)
    }
}

/// The state after `n` changes were made again.
pub open spec fn redone<S: Scalar, D: Drawable<S>>(s: AreaState<S, D>, n: nat) -> AreaState<S, D>
    decreases n,
{
    if n == 0 {
        s
    } else {
        redone(s, (n - 1) as nat).redo().0
    }
}

/// However many changes are taken back, redoing as many gives everything back as
/// it was, with nothing selected.
pub proof fn lemma_undo_many_then_redo_as_many<S: Scalar, D: Drawable<S>>(
    s: AreaState<S, D>,
    n: nat,
)
    requires
        well_behaved::<S, D>(),
        s.consistent(),
        s.at_rest(),
        0 < n <= s.history.len(),
    ensures
        redone(undone(s, n), n) == s.clear_target(),
    decreases n,
{
    let u = s.undo().0;
    lemma_undo_then_redo(s);
    lemma_undo_and_redo_keep_consistency(s);
    assert(u.clear_target() == u);
    if n > 1 {
        lemma_undo_many_then_redo_as_many(u, (n - 1) as nat);
    }
    assert(undone(s, n) == undone(u, (n - 1) as nat));
    assert(redone(undone(s, n), (n - 1) as nat) == u);
}

/// Undoing the commit of an object gives the objects and the history back as
/// they were.
pub proof fn lemma_commit_then_undo<S: Scalar, D: Drawable<S>>(s: AreaState<S, D>, drawable: D)
    requires
        s.drawables.len() <= usize::MAX,
    ensures
        s.commit(drawable).undo().1,
        s.commit(drawable).undo().0.drawables == s.drawables,
        s.commit(drawable).undo().0.history == s.history,
{
    let t = s.commit(drawable);
    assert(t.undo().0.drawables =~= s.drawables);
    assert(t.undo().0.history =~= s.history);
}

/// Undoing a reset brings all objects back, in their order.
pub proof fn lemma_reset_then_undo<S: Scalar, D: Drawable<S>>(s: AreaState<S, D>)
    requires
        well_behaved::<S, D>(),
        s.drawables.len() > 0,
    ensures
        s.reset().1,
        s.reset().0.drawables.len() == 0,
        s.reset().0.undo().1,
        s.reset().0.undo().0.drawables == s.drawables,
        s.reset().0.undo().0.history == s.history,
{
    let t = s.reset().0;
    assert(t.undo().0.drawables =~= s.drawables);
    assert(t.undo().0.history =~= s.history);
}

/// A commit and a reset keep the histories in step with the objects.
pub proof fn lemma_commit_and_reset_keep_consistency<S: Scalar, D: Drawable<S>>(
    s: AreaState<S, D>,
    drawable: D,
)
    requires
        well_behaved::<S, D>(),
        s.consistent(),
        s.at_rest(),
        s.drawables.len() <= usize::MAX,
    ensures
        s.commit(drawable).consistent(),
        s.commit(drawable).at_rest(),
        s.reset().0.consistent(),
        s.reset().0.at_rest(),
{
    let t = s.commit(drawable);
    assert(t.drawables.remove(s.drawables.len() as int) =~= s.drawables);
    assert(t.history.drop_last() =~= s.history);
    if s.drawables.len() > 0 {
        let r = s.reset().0;
        assert(r.history.drop_last() =~= s.history);
        assert(r.history.last()->drawables =~= s.drawables);
    }
}

/// A change of the style keeps the histories in step with the objects.
pub proof fn lemma_style_change_keeps_consistency<S: Scalar, D: Drawable<S>>(
    s: AreaState<S, D>,
    change: StyleChange<S>,
)
    requires
        well_behaved::<S, D>(),
        s.consistent(),
        s.transform_session is None,
    ensures
        s.apply_style_change_to_target(change).0.consistent(),
        s.apply_style_change_to_target(change).0.at_rest(),
{
    let (t, changed) = s.apply_style_change_to_target(change);
    match s.selection_focus.spec_target() {
        Some(index) if index < s.drawables.len() => {
            let old = s.drawables[index as int];
            if changed {
                assert(t.drawables.update(index as int, old) =~= s.drawables);
                assert(t.history.drop_last() =~= s.history);
            } else {
                assert(t.drawables =~= s.drawables);
            }
        },
        _ => {},
    }
}

/// Undoing a change of the style gives the objects back as they were.
pub proof fn lemma_style_change_then_undo<S: Scalar, D: Drawable<S>>(
    s: AreaState<S, D>,
    change: StyleChange<S>,
)
    requires
        well_behaved::<S, D>(),
        s.apply_style_change_to_target(change).1,
    ensures
        s.apply_style_change_to_target(change).0.undo().1,
        s.apply_style_change_to_target(change).0.undo().0.drawables == s.drawables,
        s.apply_style_change_to_target(change).0.undo().0.history == s.history,
{
    let t = s.apply_style_change_to_target(change).0;
    assert(t.undo().0.drawables =~= s.drawables);
    assert(t.undo().0.history =~= s.history);
}

/// Beginning a drag, with or without selecting the object, changes neither the
/// objects nor the histories.
pub proof fn lemma_begin_drag_keeps_consistency<S: Scalar, D: Drawable<S>>(
    s: AreaState<S, D>,
    pos: Vec2D<S>,
)
    requires
        well_behaved::<S, D>(),
        s.consistent(),
        s.at_rest(),
    ensures
        s.pointer_begin_drag(pos).0.consistent(),
        s.pointer_begin_drag(pos).0.at_rest(),
        s.pointer_begin_drag(pos).0.drawables == s.drawables,
        s.temporary_pointer_begin_drag(pos).0.consistent(),
        s.temporary_pointer_begin_drag(pos).0.at_rest(),
        s.temporary_pointer_begin_drag(pos).0.drawables == s.drawables,
{
    let t = s.pointer_begin_drag(pos).0;
    assert(t.settled() =~= s.drawables);
    let u = s.temporary_pointer_begin_drag(pos).0;
    assert(u.settled() =~= s.drawables);
}

/// Whatever a drag shows meanwhile, its end leaves objects and histories in step.
pub proof fn lemma_drag_keeps_consistency<S: Scalar, D: Drawable<S>>(
    s: AreaState<S, D>,
    delta: Vec2D<S>,
)
    requires
        well_behaved::<S, D>(),
        s.consistent(),
    ensures
        s.apply_transform_session(delta, true).0.consistent(),
        s.apply_transform_session(delta, true).0.settled() == s.settled(),
        s.pointer_end_drag(delta).0.consistent(),
        s.pointer_end_drag(delta).0.at_rest(),
{
    let t = s.apply_transform_session(delta, true).0;
    assert(t.settled() =~= s.settled());
    let (u, changed) = s.pointer_end_drag(delta);
    match s.transform_session {
        Some(session) if session.index < s.drawables.len() => {
            if changed {
                assert(u.drawables.update(session.index as int, session.before) =~= s.settled());
                assert(u.history.drop_last() =~= s.history);
            } else {
                assert(u.drawables =~= s.settled());
            }
        },
        _ => {},
    }
}

/// A drag that changes nothing in the end leaves no trace: no entry in the
/// history, and every object as it was before the drag.
pub proof fn lemma_refused_drag_leaves_no_trace<S: Scalar, D: Drawable<S>>(
    s: AreaState<S, D>,
    delta: Vec2D<S>,
)
    requires
        well_behaved::<S, D>(),
        !s.pointer_end_drag(delta).1,
    ensures
        s.pointer_end_drag(delta).0.drawables == s.settled(),
        s.pointer_end_drag(delta).0.history == s.history,
        s.pointer_end_drag(delta).0.redo_history == s.redo_history,
        s.pointer_end_drag(delta).0.transform_session is None,
{
    assert(s.pointer_end_drag(delta).0.drawables =~= s.settled());
}

/// Undoing a drag puts every object back where it was before the drag, whatever
/// the drag showed meanwhile.
pub proof fn lemma_drag_then_undo<S: Scalar, D: Drawable<S>>(
    s: AreaState<S, D>,
    delta: Vec2D<S>,
)
    requires
        well_behaved::<S, D>(),
        s.pointer_end_drag(delta).1,
    ensures
        s.pointer_end_drag(delta).0.undo().1,
        s.pointer_end_drag(delta).0.undo().0.drawables == s.settled(),
        s.pointer_end_drag(delta).0.undo().0.history == s.history,
{
    let t = s.pointer_end_drag(delta).0;
    assert(t.undo().0.drawables =~= s.settled());
    assert(t.undo().0.history =~= s.history);
}

/// The steps of a drag do not add up: only the last displacement counts.
pub proof fn lemma_drag_steps_do_not_add_up<S: Scalar, D: Drawable<S>>(
    s: AreaState<S, D>,
    first: Vec2D<S>,
    last: Vec2D<S>,
)
    ensures
        s.apply_transform_session(first, true).0.apply_transform_session(last, true)
            == s.apply_transform_session(last, true),
        s.apply_transform_session(first, true).0.pointer_end_drag(last) == s.pointer_end_drag(
            last,
        ),
{
    let t = s.apply_transform_session(first, true).0;
    match s.transform_session {
        Some(session) if session.index < s.drawables.len() => {
            assert forall|preview: bool| #[trigger]
                t.apply_transform_session(last, preview).0 == s.apply_transform_session(
                    last,
                    preview,
                ).0 by {
                assert(t.apply_transform_session(last, preview).0
                    =~= s.apply_transform_session(last, preview).0);
            }
        },
        _ => {},
    }
}

/// After a new change there is nothing to redo.
pub proof fn lemma_new_change_ends_redo<S: Scalar, D: Drawable<S>>(
    s: AreaState<S, D>,
    drawable: D,
    index: usize,
    before: D,
    change: StyleChange<S>,
    delta: Vec2D<S>,
)
    ensures
        !s.commit(drawable).redo().1,
        !s.modify_drawable(index, before, drawable).redo().1,
        s.reset().1 ==> !s.reset().0.redo().1,
        s.apply_style_change_to_target(change).1 ==> !s.apply_style_change_to_target(
            change,
        ).0.redo().1,
        s.pointer_end_drag(delta).1 ==> !s.pointer_end_drag(delta).0.redo().1,
{
}

/// A text that is taken off the canvas and put back lies where it was.
pub proof fn lemma_text_edit_given_up<S: Scalar, D: Drawable<S>>(s: AreaState<S, D>, pos: Vec2D<S>)
    requires
        s.drawables.len() <= usize::MAX,
        s.take_text_edit_at(pos).1 is Some,
    ensures
        ({
            let (t, taken) = s.take_text_edit_at(pos);
            let (index, drawable) = taken->0;
            let back = t.restore_drawable(index, drawable);
            &&& back.drawables == s.drawables
            &&& back.history == s.history
            &&& back.redo_history == s.redo_history
        }),
{
    lemma_topmost_body(s.drawables, pos, s.object_hit_tolerance());
    let (t, taken) = s.take_text_edit_at(pos);
    let (index, drawable) = taken->0;
    assert(t.restore_drawable(index, drawable).drawables =~= s.drawables);
}

/// A text that is taken off the canvas and comes back changed takes its old
/// place, keeps the histories in step, and undo gives the old text back.
pub proof fn lemma_text_edit_finished<S: Scalar, D: Drawable<S>>(
    s: AreaState<S, D>,
    pos: Vec2D<S>,
    after: D,
)
    requires
        well_behaved::<S, D>(),
        s.drawables.len() <= usize::MAX,
        s.consistent(),
        s.at_rest(),
        s.take_text_edit_at(pos).1 is Some,
    ensures
        ({
            let (t, taken) = s.take_text_edit_at(pos);
            let (index, before) = taken->0;
            let done = t.modify_drawable(index, before, after);
            &&& done.drawables == s.drawables.update(index as int, after)
            &&& done.consistent()
            &&& done.at_rest()
            &&& done.undo().1
            &&& done.undo().0.drawables == s.drawables
            &&& done.undo().0.history == s.history
        }),
{
    lemma_topmost_body(s.drawables, pos, s.object_hit_tolerance());
    let (t, taken) = s.take_text_edit_at(pos);
    let (index, before) = taken->0;
    let done = t.modify_drawable(index, before, after);
    assert(done.drawables =~= s.drawables.update(index as int, after));
    assert(done.drawables.update(index as int, before) =~= s.drawables);
    assert(done.history.drop_last() =~= s.history);
}

/// A click selects the topmost of the objects under the pointer, or nothing if
/// there is none. Changes of the style go there, and no object is changed.
pub proof fn lemma_click_selects_topmost<S: Scalar, D: Drawable<S>>(
    s: AreaState<S, D>,
    pos: Vec2D<S>,
)
    requires
        s.drawables.len() <= usize::MAX,
    ensures
        s.pointer_click(pos).0.drawables == s.drawables,
        s.pointer_click(pos).0.history == s.history,
        s.pointer_click(pos).0.selection_focus.spec_target()
            == s.pointer_click(pos).0.selection_focus.selected,
        match s.pointer_click(pos).0.selection_focus.selected {
            Some(index) => {
                &&& index < s.drawables.len()
                &&& body_hit(s.drawables[index as int], pos, s.object_hit_tolerance())
                &&& forall|j: int|
                    index < j < s.drawables.len() ==> !#[trigger] body_hit(
                        s.drawables[j],
                        pos,
                        s.object_hit_tolerance(),
                    )
            },
            None => forall|j: int|
                0 <= j < s.drawables.len() ==> !#[trigger] body_hit(
                    s.drawables[j],
                    pos,
                    s.object_hit_tolerance(),
                ),
        },
{
    lemma_topmost_body(s.drawables, pos, s.object_hit_tolerance());
}

/// The temporary pointer never selects an object, changes no object, and where
/// it takes hold of nothing the target of style changes stays.
pub proof fn lemma_temporary_pointer_does_not_select<S: Scalar, D: Drawable<S>>(
    s: AreaState<S, D>,
    pos: Vec2D<S>,
)
    ensures
        ({
            let (t, hit) = s.temporary_pointer_click(pos);
            &&& hit ==> t.selection_focus.selected is None
            &&& !hit ==> t.selection_focus == s.selection_focus
            &&& t.drawables == s.drawables
            &&& t.history == s.history
            &&& t.redo_history == s.redo_history
        }),
        ({
            let (t, hit) = s.temporary_pointer_begin_drag(pos);
            &&& hit ==> t.selection_focus.selected is None
            &&& !hit ==> t.selection_focus == s.selection_focus
            &&& t.drawables == s.drawables
            &&& t.history == s.history
            &&& t.redo_history == s.redo_history
        }),
{
}

/// The cursor over an object shows exactly what a drag from there does: it is a
/// cursor of a handle if the drag resizes by that handle, the move cursor if the
/// drag moves, and none if no drag begins.
pub proof fn lemma_cursor_shows_drag<S: Scalar, D: Drawable<S>>(s: AreaState<S, D>, pos: Vec2D<S>)
    requires
        s.drawables.len() <= usize::MAX,
    ensures
        s.pointer_hover_cursor(pos) == cursor_of(s.pointer_begin_drag(pos).0.transform_session),
        s.temporary_pointer_hover_cursor(pos) == cursor_of(
            s.temporary_pointer_begin_drag(pos).0.transform_session,
        ),
{
    lemma_topmost_body(s.drawables, pos, s.object_hit_tolerance());
    lemma_topmost_handle(s.drawables, pos, s.object_hit_tolerance());
}

/// The cursor that goes with a drag.
pub open spec fn cursor_of<D>(session: Option<TransformSession<D>>) -> Option<PointerCursor> {
    match session {
        None => None,
        Some(session) => match session.action {
            ObjectEditAction::Move => Some(PointerCursor::Move),
            ObjectEditAction::Resize(handle) => Some(spec_cursor_for_handle(handle)),
        },
    }
}

/// A drawing tool has no object to restyle: a change of the style reaches none.
pub proof fn lemma_drawing_tool_has_no_target<S: Scalar, D: Drawable<S>>(
    s: AreaState<S, D>,
    tool: Tools,
    change: StyleChange<S>,
)
    requires
        tool !is Pointer,
    ensures
        s.set_active_tool(tool).apply_style_change_to_target(change) == (
            s.set_active_tool(tool),
            false,
        ),
        s.set_active_tool(tool).drawables == s.drawables,
{
}

/// After the drag offset is reset, the next update of the transformation centers
/// the image, whatever the scale.
pub proof fn lemma_reset_centers<S: Scalar, D: Drawable<S>>(
    s: AreaState<S, D>,
    canvas_width: u32,
    canvas_height: u32,
)
    ensures
        ({
            let t = s.reset_drag_offset().update_transformation(canvas_width, canvas_height);
            let canvas = Vec2D {
                x: S::spec_from_int(canvas_width as i64),
                y: S::spec_from_int(canvas_height as i64),
            };
            &&& t.offset == centered(s.image_size(), canvas, t.scale_factor)
            &&& t.drag_offset == Vec2D::<S>::spec_zero()
            &&& t.last_offset == Vec2D::<S>::spec_zero()
            &&& !t.is_reset
        }),
{
}

/// Selecting objects and changing the tool keep the histories in step with the
/// objects.
pub proof fn lemma_selection_keeps_consistency<S: Scalar, D: Drawable<S>>(
    s: AreaState<S, D>,
    pos: Vec2D<S>,
    tool: Tools,
)
    requires
        s.consistent(),
        s.at_rest(),
    ensures
        s.pointer_click(pos).0.consistent(),
        s.pointer_click(pos).0.at_rest(),
        s.temporary_pointer_click(pos).0.consistent(),
        s.temporary_pointer_click(pos).0.at_rest(),
        s.set_active_tool(tool).consistent(),
        s.set_active_tool(tool).at_rest(),
{
}

/// The selected object and the one that is dragged are on the canvas.
pub open spec fn selection_is_valid<S: Scalar, D: Drawable<S>>(s: AreaState<S, D>) -> bool {
    &&& s.selection_focus.selected matches Some(index) ==> index < s.drawables.len()
    &&& s.transform_session matches Some(session) ==> session.index < s.drawables.len()
}

/// No operation leaves an object selected or dragged that is not on the canvas.
pub proof fn lemma_selection_stays_valid<S: Scalar, D: Drawable<S>>(
    s: AreaState<S, D>,
    drawable: D,
    before: D,
    index: usize,
    pos: Vec2D<S>,
    preview: bool,
    tool: Tools,
    change: StyleChange<S>,
)
    requires
        selection_is_valid(s),
        s.drawables.len() <= usize::MAX,
    ensures
        selection_is_valid(s.commit(drawable)),
        selection_is_valid(s.undo().0),
        selection_is_valid(s.redo().0),
        selection_is_valid(s.reset().0),
        selection_is_valid(s.set_active_tool(tool)),
        selection_is_valid(s.pointer_click(pos).0),
        selection_is_valid(s.take_text_edit_at(pos).0),
        selection_is_valid(s.restore_drawable(index, drawable)),
        selection_is_valid(s.modify_drawable(index, before, drawable)),
        selection_is_valid(s.pointer_begin_drag(pos).0),
        selection_is_valid(s.temporary_pointer_click(pos).0),
        selection_is_valid(s.temporary_pointer_begin_drag(pos).0),
        selection_is_valid(s.apply_transform_session(pos, preview).0),
        selection_is_valid(s.pointer_end_drag(pos).0),
        selection_is_valid(s.apply_style_change_to_target(change).0),
{
    lemma_topmost_body(s.drawables, pos, s.object_hit_tolerance());
    lemma_topmost_handle(s.drawables, pos, s.object_hit_tolerance());
}

/// Updating the transformation again changes nothing, unless the image was to be
/// centered or the scale is not a number.
pub proof fn lemma_update_settles<S: Scalar, D: Drawable<S>>(
    s: AreaState<S, D>,
    canvas_width: u32,
    canvas_height: u32,
)
    requires
        !s.is_reset,
        s.zoom_scale.spec_same_as(s.zoom_scale),
    ensures
        s.update_transformation(canvas_width, canvas_height).update_transformation(
            canvas_width,
            canvas_height,
        ) == s.update_transformation(canvas_width, canvas_height),
{
    let t = s.update_transformation(canvas_width, canvas_height);
    assert(t.update_transformation(canvas_width, canvas_height) =~= t);
}

/// The numbers are far from the ends of the range: positions below about sixteen
/// thousand million pixels, and scales up to 1024.
pub open spec fn moderate<D>(s: AreaState<Fixed, D>) -> bool {
    let limit = 0x100_0000_0000int;
    &&& -limit <= s.pointer_offset.x.raw <= limit
    &&& -limit <= s.pointer_offset.y.raw <= limit
    &&& -limit <= s.offset.x.raw <= limit
    &&& -limit <= s.offset.y.raw <= limit
    &&& 0 < s.scale_factor.raw
    &&& 0 < s.zoom_scale.raw <= 0x1_0000
}

/// `v` is at most `u`, and behind it by at most one step of the image and less
/// than one step of a screen that shows the image at the scale `z`.
pub open spec fn almost(u: Fixed, v: Fixed, z: Fixed) -> bool {
    &&& v.raw <= u.raw
    &&& (u.raw - v.raw - 1) * z.raw < STEPS
}

/// One coordinate of the point under the pointer: it is `u` steps into the image
/// before the scale changes to `z`, and `v` steps after that.
proof fn lemma_zoom_coordinate(p: int, o: int, s: int, z: int, center: int)
    requires
        -0x100_0000_0000 <= p <= 0x100_0000_0000,
        -0x100_0000_0000 <= o <= 0x100_0000_0000,
        0 < s <= i64::MAX,
        0 < z <= 0x1_0000,
        -0x4_0000_0000_0000 <= center <= 0x4_0000_0000_0000,
    ensures
        ({
            let pointer = Fixed { raw: p as i64 };
            let u = pointer.spec_minus(Fixed { raw: o as i64 }).spec_over(Fixed { raw: s as i64 });
            let zoom = Fixed { raw: z as i64 };
            let c = Fixed { raw: center as i64 };
            let offset = c.spec_plus(pointer.spec_minus(u.spec_times(zoom)).spec_minus(c));
            let v = pointer.spec_minus(offset).spec_over(zoom);
            almost(u, v, zoom)
        }),
{
    let u = ((p - o) * 64) / s;
    assert(-0x8000_0000_0000 <= (p - o) * 64 <= 0x8000_0000_0000);
    assert(-0x8000_0000_0000 <= u <= 0x8000_0000_0000) by (nonlinear_arith)
        requires
            u == ((p - o) * 64) / s,
            -0x8000_0000_0000 <= (p - o) * 64 <= 0x8000_0000_0000,
            0 < s,
    ;
    let uz = (u * z) / 64;
    assert(-0x8000_0000_0000_0000 <= u * z <= 0x8000_0000_0000_0000) by (nonlinear_arith)
        requires
            -0x8000_0000_0000 <= u <= 0x8000_0000_0000,
            0 < z <= 0x1_0000,
    ;
    assert(-0x200_0000_0000_0000 <= uz <= 0x200_0000_0000_0000);
    let v = (uz * 64) / z;
    assert(v <= u) by (nonlinear_arith)
        requires
            uz == (u * z) / 64,
            v == (uz * 64) / z,
            0 < z,
    ;
    assert((u - v - 1) * z < 64) by (nonlinear_arith)
        requires
            uz == (u * z) / 64,
            v == (uz * 64) / z,
            0 < z,
    ;
    assert(-0x8000_0000_0000_0000 <= v) by (nonlinear_arith)
        requires
            -0x200_0000_0000_0000 <= uz,
            v == (uz * 64) / z,
            0 < z,
    ;
}

/// When the scale changes, the point of the image that was under the pointer stays
/// there: its coordinates change by rounding only.
pub proof fn lemma_zoom_keeps_point_under_pointer<D: Drawable<Fixed>>(
    s: AreaState<Fixed, D>,
    canvas_width: u32,
    canvas_height: u32,
)
    requires
        moderate(s),
        s.zoom_changed(),
        !s.is_reset,
    ensures
        ({
            let t = s.update_transformation(canvas_width, canvas_height);
            let u = s.pointer_offset.spec_minus(s.offset).spec_over(s.scale_factor);
            let v = t.pointer_offset.spec_minus(t.offset).spec_over(t.scale_factor);
            &&& t.scale_factor == s.zoom_scale
            &&& almost(u.x, v.x, s.zoom_scale)
            &&& almost(u.y, v.y, s.zoom_scale)
        }),
{
    let canvas = Vec2D::<Fixed> {
        x: Fixed::spec_from_int(canvas_width as i64),
        y: Fixed::spec_from_int(canvas_height as i64),
    };
    let center = centered(s.image_size(), canvas, s.zoom_scale);
    lemma_center_is_moderate(s.image_width as int, canvas_width as int, s.zoom_scale);
    lemma_center_is_moderate(s.image_height as int, canvas_height as int, s.zoom_scale);
    lemma_zoom_coordinate(
        s.pointer_offset.x.raw as int,
        s.offset.x.raw as int,
        s.scale_factor.raw as int,
        s.zoom_scale.raw as int,
        center.x.raw as int,
    );
    lemma_zoom_coordinate(
        s.pointer_offset.y.raw as int,
        s.offset.y.raw as int,
        s.scale_factor.raw as int,
        s.zoom_scale.raw as int,
        center.y.raw as int,
    );
}

proof fn lemma_center_is_moderate(image: int, canvas: int, scale: Fixed)
    requires
        i32::MIN <= image <= i32::MAX,
        0 <= canvas <= u32::MAX,
        0 < scale.raw <= 0x1_0000,
    ensures
        ({
            let center = Fixed::spec_from_int(canvas as i64).spec_minus(
                Fixed::spec_from_int(image as i64).spec_times(scale),
            ).spec_over(Fixed::spec_from_int(2));
            -0x4_0000_0000_0000 <= center.raw <= 0x4_0000_0000_0000
        }),
{
    let i = image * 64;
    let z = scale.raw as int;
    assert(-0x20_0000_0000_0000 <= i * z <= 0x20_0000_0000_0000) by (nonlinear_arith)
        requires
            -0x20_0000_0000 <= i <= 0x20_0000_0000,
            0 < z <= 0x1_0000,
    ;
}

/// An image of `width` by `height` pixels, shown at the scale `scale`, is no higher
/// than the canvas, and wider by less than one sixty-fourth of its height at most.
pub open spec fn fits(scale: Fixed, width: int, height: int, canvas_x: int, canvas_y: int) -> bool {
    &&& scale.raw * height <= STEPS * canvas_y
    &&& scale.raw * (STEPS * width - height) <= STEPS * STEPS * canvas_x
}

/// At a scale that is one step larger, the image is wider than the canvas, or so
/// high that less than one part in `STEPS * width / height` of the canvas is left.
pub open spec fn fills(
    scale: Fixed,
    width: int,
    height: int,
    canvas_x: int,
    canvas_y: int,
) -> bool {
    ||| (scale.raw + 1) * width > STEPS * canvas_x
    ||| (scale.raw + 1) * width * height > canvas_y * (STEPS * width - height)
}

/// The scale in whole numbers, where the width decides: `a` is the aspect ratio and
/// `q` the height that the image has at the full width of the canvas.
proof fn lemma_fit_to_width(w: int, h: int, x: int, y: int, a: int, q: int, s: int)
    requires
        0 < w,
        0 < h,
        0 <= x,
        0 < a,
        a == (w * 4096) / (h * 64),
        q == (x * 4096) / a,
        q <= y * 64,
        s == (q * 64) / (h * 64),
    ensures
        0 <= s,
        s * h <= 64 * y,
        s * (64 * w - h) <= 4096 * x,
        (s + 1) * w > 64 * x,
{
    assert(a == (64 * w) / h && s == q / h) by (nonlinear_arith)
        requires
            0 < h,
            a == (w * 4096) / (h * 64),
            s == (q * 64) / (h * 64),
    ;
    lemma_quotient(64 * w, h, a);
    lemma_quotient(q, h, s);
    lemma_quotient(x * 4096, a, q);
    assert(0 <= q) by (nonlinear_arith)
        requires
            x * 4096 < (q + 1) * a,
            0 <= x,
            0 < a,
    ;
    assert(0 <= s) by (nonlinear_arith)
        requires
            q < (s + 1) * h,
            0 <= q,
            0 < h,
    ;
    assert(s * (64 * w - h) <= 4096 * x) by (nonlinear_arith)
        requires
            0 <= s,
            0 < h,
            0 < a,
            64 * w < (a + 1) * h,
            s * h <= q,
            q * a <= x * 4096,
    {
        assert(64 * w - h <= a * h);
        assert(s * (64 * w - h) <= s * (a * h));
        assert(s * (a * h) == (s * h) * a);
        assert((s * h) * a <= q * a);
    }
    assert((s + 1) * w > 64 * x) by (nonlinear_arith)
        requires
            0 <= s,
            0 < h,
            0 < a,
            a * h <= 64 * w,
            q < (s + 1) * h,
            x * 4096 < (q + 1) * a,
    {
        assert((q + 1) * a <= ((s + 1) * h) * a);
        assert(((s + 1) * h) * a == (s + 1) * (a * h));
        assert((s + 1) * (a * h) <= (s + 1) * (64 * w));
        assert((s + 1) * (64 * w) == 64 * ((s + 1) * w));
    }
}

/// The scale in whole numbers, where the height decides.
proof fn lemma_fit_to_height(w: int, h: int, x: int, y: int, a: int, q: int, s: int)
    requires
        0 < w,
        0 < h,
        0 <= y,
        0 < a,
        a == (w * 4096) / (h * 64),
        q == (x * 4096) / a,
        y * 64 < q,
        s == (y * a * 64) / (w * 64),
    ensures
        0 <= s,
        s * h <= 64 * y,
        s * (64 * w - h) <= 4096 * x,
        (s + 1) * w * h > y * (64 * w - h),
{
    assert(0 <= y * a) by (nonlinear_arith)
        requires
            0 <= y,
            0 < a,
    ;
    let p = y * a;
    assert(a == (64 * w) / h && s == p / w) by (nonlinear_arith)
        requires
            0 < h,
            0 < w,
            a == (w * 4096) / (h * 64),
            s == (p * 64) / (w * 64),
    ;
    lemma_quotient(64 * w, h, a);
    lemma_quotient(p, w, s);
    lemma_quotient(x * 4096, a, q);
    assert(0 <= s) by (nonlinear_arith)
        requires
            p < (s + 1) * w,
            0 <= p,
            0 < w,
    ;
    assert(s * h <= 64 * y) by (nonlinear_arith)
        requires
            0 < w,
            0 <= y,
            0 < h,
            s * w <= p,
            p == y * a,
            a * h <= 64 * w,
    {
        assert((s * h) * w == (s * w) * h);
        assert((s * w) * h <= p * h);
        assert(p * h == y * (a * h));
        assert(y * (a * h) <= y * (64 * w));
        assert((s * h) * w <= (64 * y) * w);
    }
    assert(s * (64 * w - h) <= 4096 * x) by (nonlinear_arith)
        requires
            0 <= s,
            0 < h,
            0 < a,
            s * w <= p,
            p == y * a,
            y * 64 < q,
            q * a <= x * 4096,
    {
        assert(s * (64 * w - h) <= 64 * (s * w));
        assert(64 * p == (y * 64) * a);
        assert((y * 64) * a <= q * a);
    }
    assert((s + 1) * w * h > y * (64 * w - h)) by (nonlinear_arith)
        requires
            0 < h,
            0 <= y,
            p == y * a,
            p < (s + 1) * w,
            64 * w < (a + 1) * h,
    {
        assert(((s + 1) * w) * h > p * h);
        assert(p * h == y * (a * h));
        assert(y * (64 * w - h) <= y * (a * h));
    }
}

/// A quotient that is rounded down.
proof fn lemma_quotient(n: int, d: int, q: int)
    by (nonlinear_arith)
    requires
        0 < d,
        q == n / d,
    ensures
        q * d <= n,
        n < (q + 1) * d,
{
}

/// The scale that makes an image fit is the smaller of the two by which the canvas
/// is wider and higher than the image, up to the rounding of the aspect ratio: the
/// image does not overflow the canvas, and a larger one would. An image that is
/// more than `STEPS` times as high as it is wide has no aspect ratio; it is shown
/// at no size at all.
pub proof fn lemma_fit_scale_fits(width: i32, height: i32, canvas_x: u32, canvas_y: u32)
    requires
        0 < width,
        0 < height,
        canvas_x <= 0x100_0000,
        canvas_y <= 0x100_0000,
    ensures
        ({
            let image = Vec2D {
                x: Fixed::spec_from_int(width as i64),
                y: Fixed::spec_from_int(height as i64),
            };
            let canvas = Vec2D {
                x: Fixed::spec_from_int(canvas_x as i64),
                y: Fixed::spec_from_int(canvas_y as i64),
            };
            let scale = fit_scale(image, canvas);
            &&& 0 <= scale.raw
            &&& fits(scale, width as int, height as int, canvas_x as int, canvas_y as int)
            &&& STEPS * width >= height ==> fills(
                scale,
                width as int,
                height as int,
                canvas_x as int,
                canvas_y as int,
            )
        }),
{
    let w = width as int;
    let h = height as int;
    let x = canvas_x as int;
    let y = canvas_y as int;
    let a = (w * 4096) / (h * 64);
    assert(0 <= a <= w * 64) by (nonlinear_arith)
        requires
            0 < w,
            0 < h,
            a == (w * 4096) / (h * 64),
    ;
    assert(64 * w >= h ==> 0 < a) by (nonlinear_arith)
        requires
            0 < w,
            0 < h,
            a == (w * 4096) / (h * 64),
    ;
    let image = Vec2D {
        x: Fixed::spec_from_int(width as i64),
        y: Fixed::spec_from_int(height as i64),
    };
    let canvas = Vec2D {
        x: Fixed::spec_from_int(canvas_x as i64),
        y: Fixed::spec_from_int(canvas_y as i64),
    };
    assert(image.x.spec_over(image.y).raw == a);
    if a > 0 {
        let q = (x * 4096) / a;
        assert(0 <= q <= x * 4096) by (nonlinear_arith)
            requires
                0 <= x,
                0 < a,
                q == (x * 4096) / a,
        ;
        assert(canvas.x.spec_over(image.x.spec_over(image.y)).raw == q);
        if q <= y * 64 {
            let s = (q * 64) / (h * 64);
            lemma_fit_to_width(w, h, x, y, a, q, s);
            assert(s <= q) by (nonlinear_arith)
                requires
                    0 <= q,
                    0 < h,
                    s == (q * 64) / (h * 64),
            ;
            assert(fit_scale(image, canvas).raw == s);
        } else {
            let p = y * a;
            let s = (p * 64) / (w * 64);
            lemma_fit_to_height(w, h, x, y, a, q, s);
            assert(0 <= p <= 0x100_0000 * 0x20_0000_0000) by (nonlinear_arith)
                requires
                    p == y * a,
                    0 <= y <= 0x100_0000,
                    0 < a <= 0x20_0000_0000,
            ;
            assert(s <= p) by (nonlinear_arith)
                requires
                    0 <= p,
                    0 < w,
                    s == (p * 64) / (w * 64),
            ;
            assert(((y * 64) * a) / 64 == p) by (nonlinear_arith)
                requires
                    p == y * a,
            ;
            assert(canvas.y.spec_times(image.x.spec_over(image.y)).raw == p);
            assert(fit_scale(image, canvas).raw == s);
        }
    } else {
        assert(fit_scale(image, canvas).raw == 0);
    }
}

} // verus!

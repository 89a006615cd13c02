//! The objects on the canvas, the history of their changes, and the
//! transformation between the canvas and the image.
use vstd::prelude::*;

use crate::femtovg_area::state::{
    body_hit, handle_hit, inserted, spec_cursor_for_handle, topmost_body,
    topmost_handle, AreaState, HistoryStep, HitPart, HitResult, ObjectEditAction, PointerCursor,
    SelectionFocusState, TransformSession,
};
use crate::math::{Scalar, Vec2D};
use crate::style::StyleChange;
use crate::tools::edit::{closest_handle, EditHandle};
use crate::tools::{handles_of, Drawable, Tools};

verus! {

/// One entry of the undo or redo history.
pub enum HistoryAction<D> {
    Add { index: usize, drawable: Option<D> },
    Modify { index: usize, before: D, after: D },
    Reset { drawables: Vec<D> },
}

impl<D> View for HistoryAction<D> {
    type V = HistoryStep<D>;

    open spec fn view(&self) -> HistoryStep<D> {
        match *self {
            HistoryAction::Add { index, drawable } => HistoryStep::Add { index, drawable },
            HistoryAction::Modify { index, before, after } => HistoryStep::Modify {
                index,
                before,
                after,
            },
            HistoryAction::Reset { drawables } => HistoryStep::Reset { drawables: drawables@ },
        }
    }
}

pub open spec fn steps<D>(actions: Seq<HistoryAction<D>>) -> Seq<HistoryStep<D>> {
    actions.map_values(|action: HistoryAction<D>| action@)
}

proof fn lemma_steps_push<D>(actions: Seq<HistoryAction<D>>, action: HistoryAction<D>)
    ensures
        steps(actions.push(action)) == steps(actions).push(action@),
{
    assert(steps(actions.push(action)) =~= steps(actions).push(action@));
}

proof fn lemma_steps_pop<D>(actions: Seq<HistoryAction<D>>)
    requires
        actions.len() > 0,
    ensures
        steps(actions.drop_last()) == steps(actions).drop_last(),
        steps(actions).last() == actions.last()@,
{
    assert(steps(actions.drop_last()) =~= steps(actions).drop_last());
}

/// What is known of the image, the tools, the objects and the transformation.
pub struct FemtoVgAreaMut<S, D> {
    pub image_width: i32,
    pub image_height: i32,
    pub background_uploaded: bool,
    pub transparency_created: bool,
    pub active_tool: Tools,
    pub scale_factor: S,
    pub offset: Vec2D<S>,
    pub drawables: Vec<D>,
    pub history: Vec<HistoryAction<D>>,
    pub redo_history: Vec<HistoryAction<D>>,
    pub selection_focus: SelectionFocusState,
    pub transform_session: Option<TransformSession<D>>,
    pub zoom_scale: S,
    pub last_scale: S,
    pub pointer_offset: Vec2D<S>,
    pub last_offset: Vec2D<S>,
    pub drag_offset: Vec2D<S>,
    pub is_drag: bool,
    pub is_reset: bool,
}

impl<S, D> View for FemtoVgAreaMut<S, D> {
    type V = AreaState<S, D>;

    open spec fn view(&self) -> AreaState<S, D> {
        AreaState {
            image_width: self.image_width,
            image_height: self.image_height,
            background_uploaded: self.background_uploaded,
            transparency_created: self.transparency_created,
            active_tool: self.active_tool,
            scale_factor: self.scale_factor,
            offset: self.offset,
            drawables: self.drawables@,
            history: steps(self.history@),
            redo_history: steps(self.redo_history@),
            selection_focus: self.selection_focus,
            transform_session: self.transform_session,
            zoom_scale: self.zoom_scale,
            last_scale: self.last_scale,
            pointer_offset: self.pointer_offset,
            last_offset: self.last_offset,
            drag_offset: self.drag_offset,
            is_drag: self.is_drag,
            is_reset: self.is_reset,
        }
    }
}

impl SelectionFocusState {
    pub fn clear_selection(&mut self)
        ensures
            *final(self) == (SelectionFocusState { selected: None, ..*old(self) }),
    {
        self.selected = None;
    }

    pub fn clear(&mut self)
        ensures
            *final(self) == SelectionFocusState::nothing(),
    {
        self.selected = None;
        self.focused = None;
    }

    pub fn set_selected(&mut self, index: Option<usize>)
        ensures
            *final(self) == SelectionFocusState::on(index),
    {
        self.selected = index;
        self.focused = index;
    }

    pub fn focus_without_selection(&mut self, index: usize)
        ensures
            *final(self) == SelectionFocusState::focus_only(index),
    {
        self.selected = None;
        self.focused = Some(index);
    }

    /// The object that style changes go to.
    pub fn target(&self) -> (r: Option<usize>)
        ensures
            r == self.spec_target(),
    {
        if self.selected.is_some() {
            self.selected
        } else {
            self.focused
        }
    }
}

impl PointerCursor {
    pub open spec fn spec_name(self) -> Seq<char> {
        match self {
            PointerCursor::Move => "move"@,
            PointerCursor::ResizeNwSe => "nwse-resize"@,
            PointerCursor::ResizeNeSw => "nesw-resize"@,
            PointerCursor::ResizeNs => "ns-resize"@,
            PointerCursor::ResizeEw => "ew-resize"@,
            PointerCursor::ResizeAll => "all-resize"@,
        }
    }

    /// The name under which the windowing system knows the cursor.
    pub fn name(self) -> (r: &'static str)
        ensures
            r@ == self.spec_name(),
    {
        match self {
            PointerCursor::Move => "move",
            PointerCursor::ResizeNwSe => "nwse-resize",
            PointerCursor::ResizeNeSw => "nesw-resize",
            PointerCursor::ResizeNs => "ns-resize",
            PointerCursor::ResizeEw => "ew-resize",
            PointerCursor::ResizeAll => "all-resize",
        }
    }
}

impl HitResult {
    /// What a drag of the part that was hit does.
    pub fn action(self) -> (r: ObjectEditAction)
        ensures
            r == self.spec_action(),
    {
        match self.part {
            HitPart::Body => ObjectEditAction::Move,
            HitPart::Handle(handle) => ObjectEditAction::Resize(handle),
        }
    }
}

pub fn cursor_for_handle(handle: EditHandle) -> (r: PointerCursor)
    ensures
        r == spec_cursor_for_handle(handle),
{
    match handle {
        EditHandle::TopLeft | EditHandle::BottomRight => PointerCursor::ResizeNwSe,
        EditHandle::TopRight | EditHandle::BottomLeft => PointerCursor::ResizeNeSw,
        EditHandle::Top | EditHandle::Bottom => PointerCursor::ResizeNs,
        EditHandle::Right | EditHandle::Left => PointerCursor::ResizeEw,
        EditHandle::Start | EditHandle::End => PointerCursor::ResizeAll,
    }
}

/// The topmost object that `pos` touches is on the canvas, `pos` touches it, and
/// `pos` touches none of the objects above it. Where there is none, `pos` touches
/// no object.
pub proof fn lemma_topmost_body<S: Scalar, D: Drawable<S>>(
    drawables: Seq<D>,
    pos: Vec2D<S>,
    tolerance: S,
)
    requires
        drawables.len() <= usize::MAX,
    ensures
        match topmost_body(drawables, pos, tolerance) {
            Some(index) => {
                &&& index < drawables.len()
                &&& body_hit(drawables[index as int], pos, tolerance)
                &&& forall|j: int|
                    index < j < drawables.len() ==> !#[trigger] body_hit(
                        drawables[j],
                        pos,
                        tolerance,
                    )
            },
            None => forall|j: int|
                0 <= j < drawables.len() ==> !#[trigger] body_hit(drawables[j], pos, tolerance),
        },
    decreases drawables.len(),
{
    if drawables.len() > 0 && !body_hit(drawables.last(), pos, tolerance) {
        let below = drawables.drop_last();
        lemma_topmost_body(below, pos, tolerance);
        assert(forall|j: int| 0 <= j < below.len() ==> drawables[j] == below[j]);
        assert forall|j: int|
            (match topmost_body(below, pos, tolerance) {
                Some(index) => index < j,
                None => 0 <= j,
            }) && j < drawables.len() implies !#[trigger] body_hit(
            drawables[j],
            pos,
            tolerance,
        ) by {
            if j < below.len() {
                assert(body_hit(drawables[j], pos, tolerance) == body_hit(
                    below[j],
                    pos,
                    tolerance,
                ));
            }
        }
    }
}

/// The object whose handle a drag takes hold of is the topmost one that has a
/// handle in reach.
pub proof fn lemma_topmost_handle<S: Scalar, D: Drawable<S>>(
    drawables: Seq<D>,
    pos: Vec2D<S>,
    tolerance: S,
)
    requires
        drawables.len() <= usize::MAX,
    ensures
        match topmost_handle(drawables, pos, tolerance) {
            Some((index, handle)) => {
                &&& index < drawables.len()
                &&& handle_hit(drawables[index as int], pos, tolerance) == Some(handle)
                &&& forall|j: int|
                    index < j < drawables.len() ==> #[trigger] handle_hit(
                        drawables[j],
                        pos,
                        tolerance,
                    ) is None
            },
            None => forall|j: int|
                0 <= j < drawables.len() ==> #[trigger] handle_hit(
                    drawables[j],
                    pos,
                    tolerance,
                ) is None,
        },
    decreases drawables.len(),
{
    if drawables.len() > 0 && handle_hit(drawables.last(), pos, tolerance) is None {
        let below = drawables.drop_last();
        lemma_topmost_handle(below, pos, tolerance);
        assert forall|j: int|
            (match topmost_handle(below, pos, tolerance) {
                Some((index, _)) => index < j,
                None => 0 <= j,
            }) && j < drawables.len() implies #[trigger] handle_hit(
            drawables[j],
            pos,
            tolerance,
        ) is None by {
            if j < below.len() {
                assert(handle_hit(drawables[j], pos, tolerance) == handle_hit(
                    below[j],
                    pos,
                    tolerance,
                ));
            }
        }
    }
}

impl<S: Scalar, D: Drawable<S>> FemtoVgAreaMut<S, D> {
    /// An image that was just opened.
    pub fn new(
        active_tool: Tools,
        image_width: i32,
        image_height: i32,
        input_scale: Option<S>,
    ) -> (r: Self)
        ensures
            r@ == AreaState::<S, D>::fresh(active_tool, image_width, image_height, input_scale),
    {
        let initial_scale = match input_scale {
            Some(scale) => scale,
            None => S::from_int(0),
        };
        let r = FemtoVgAreaMut {
            image_width,
            image_height,
            background_uploaded: false,
            transparency_created: false,
            active_tool,
            scale_factor: S::from_int(1),
            offset: Vec2D::zero(),
            drawables: Vec::new(),
            history: Vec::new(),
            redo_history: Vec::new(),
            selection_focus: SelectionFocusState { selected: None, focused: None },
            transform_session: None,
            zoom_scale: initial_scale,
            last_scale: initial_scale,
            pointer_offset: Vec2D::zero(),
            last_offset: Vec2D::zero(),
            drag_offset: Vec2D::zero(),
            is_drag: false,
            is_reset: false,
        };
        assert(r@ =~= AreaState::<S, D>::fresh(
            active_tool,
            image_width,
            image_height,
            input_scale,
        ));
        r
    }

    fn clear_object_selection(&mut self)
        ensures
            final(self)@ == old(self)@.clear_object_selection(),
    {
        self.selection_focus.clear_selection();
        self.transform_session = None;
    }

    /// Adds an object, which becomes the target of style changes.
    pub fn commit(&mut self, drawable: D)
        ensures
            final(self)@ == old(self)@.commit(drawable),
    {
        self.clear_object_selection();
        let index: usize = self.drawables.len();
        self.drawables.push(drawable);
        self.selection_focus.focused = Some(index);
        proof {
            lemma_steps_push(self.history@, HistoryAction::Add { index, drawable: None });
        }
        self.history.push(HistoryAction::Add { index, drawable: None });
        self.redo_history.clear();
        assert(self@ =~= old(self)@.commit(drawable));
    }

    /// Takes the latest change back.
    pub fn undo(&mut self) -> (r: bool)
        ensures
            (final(self)@, r) == old(self)@.undo(),
    {
        self.clear_object_selection();
        self.selection_focus.focused = None;
        proof {
            if self.history@.len() > 0 {
                lemma_steps_pop(self.history@);
            }
        }
        let Some(action) = self.history.pop() else {
            assert(self@ =~= old(self)@.undo().0);
            return false;
        };
        let action = match action {
            HistoryAction::Add { index, .. } => {
                if index >= self.drawables.len() {
                    assert(self@ =~= old(self)@.undo().0);
                    return false;
                }
                let mut removed = self.drawables.remove(index);
                removed.handle_undo();
                HistoryAction::Add { index, drawable: Some(removed) }
            },
            HistoryAction::Modify { index, before, after } => {
                if index >= self.drawables.len() {
                    assert(self@ =~= old(self)@.undo().0);
                    return false;
                }
                let mut previous = before.edit_snapshot();
                previous.invalidate_edit_cache();
                self.drawables.set(index, previous);
                HistoryAction::Modify { index, before, after }
            },
            HistoryAction::Reset { drawables } => {
                let mut restored: Vec<D> = Vec::new();
                let mut k: usize = 0;
                while k < drawables.len()
                    invariant
                        k <= drawables@.len(),
                        restored@ == drawables@.take(k as int).map_values(
                            |d: D| d.spec_edit_snapshot().spec_handle_redo(),
                        ),
                    decreases drawables@.len() - k,
                {
                    let mut drawable = drawables[k].edit_snapshot();
                    drawable.handle_redo();
                    restored.push(drawable);
                    assert(drawables@.take(k as int + 1) =~= drawables@.take(k as int).push(
                        drawables@[k as int],
                    ));
                    k = k + 1;
                }
                assert(drawables@.take(k as int) =~= drawables@);
                self.drawables = restored;
                HistoryAction::Reset { drawables }
            },
        };
        proof {
            lemma_steps_push(self.redo_history@, action);
        }
        self.redo_history.push(action);
        assert(self@ =~= old(self)@.undo().0);
        true
    }

    /// Makes the change again that was undone last.
    pub fn redo(&mut self) -> (r: bool)
        ensures
            (final(self)@, r) == old(self)@.redo(),
    {
        self.clear_object_selection();
        self.selection_focus.focused = None;
        proof {
            if self.redo_history@.len() > 0 {
                lemma_steps_pop(self.redo_history@);
            }
        }
        let Some(action) = self.redo_history.pop() else {
            assert(self@ =~= old(self)@.redo().0);
            return false;
        };
        let action = match action {
            HistoryAction::Add { index, drawable } => {
                let Some(mut drawable) = drawable else {
                    assert(self@ =~= old(self)@.redo().0);
                    return false;
                };
                drawable.handle_redo();
                self.insert_or_push(index, drawable);
                HistoryAction::Add { index, drawable: None }
            },
            HistoryAction::Modify { index, before, after } => {
                if index >= self.drawables.len() {
                    assert(self@ =~= old(self)@.redo().0);
                    return false;
                }
                let mut next = after.edit_snapshot();
                next.invalidate_edit_cache();
                self.drawables.set(index, next);
                HistoryAction::Modify { index, before, after }
            },
            HistoryAction::Reset { drawables } => {
                let mut removed: Vec<D> = Vec::new();
                std::mem::swap(&mut removed, &mut self.drawables);
                let mut k: usize = 0;
                while k < removed.len()
                    decreases removed@.len() - k,
                {
                    removed[k].handle_undo();
                    k = k + 1;
                }
                HistoryAction::Reset { drawables }
            },
        };
        proof {
            lemma_steps_push(self.history@, action);
        }
        self.history.push(action);
        assert(self@ =~= old(self)@.redo().0);
        true
    }

    fn insert_or_push(&mut self, index: usize, drawable: D)
        ensures
            final(self)@ == (AreaState {
                drawables: inserted(old(self)@.drawables, index, drawable),
                ..old(self)@
            }),
    {
        if index >= self.drawables.len() {
            self.drawables.push(drawable);
        } else {
            self.drawables.insert(index, drawable);
        }
    }

    /// Removes all objects.
    pub fn reset(&mut self) -> (r: bool)
        ensures
            (final(self)@, r) == old(self)@.reset(),
    {
        self.clear_object_selection();
        self.selection_focus.focused = None;
        if self.drawables.is_empty() {
            assert(self@ =~= old(self)@.reset().0);
            return false;
        }
        let ghost all = self.drawables@;
        let mut removed: Vec<D> = Vec::new();
        std::mem::swap(&mut removed, &mut self.drawables);
        let mut k: usize = 0;
        while k < removed.len()
            invariant
                k <= removed@.len(),
                removed@.len() == all.len(),
                forall|i: int| 0 <= i < k ==> removed@[i] == all[i].spec_handle_undo(),
                forall|i: int| k <= i < all.len() ==> removed@[i] == all[i],
            decreases removed@.len() - k,
        {
            removed[k].handle_undo();
            k = k + 1;
        }
        let mut snapshots: Vec<D> = Vec::new();
        let mut k: usize = 0;
        while k < removed.len()
            invariant
                k <= removed@.len(),
                removed@.len() == all.len(),
                forall|i: int|
                    0 <= i < all.len() ==> removed@[i] == #[trigger] all[i].spec_handle_undo(),
                snapshots@.len() == k,
                forall|i: int|
                    0 <= i < k ==> snapshots@[i] == #[trigger] removed@[i].spec_edit_snapshot(),
            decreases removed@.len() - k,
        {
            let snapshot = removed[k].edit_snapshot();
            snapshots.push(snapshot);
            k = k + 1;
        }
        assert(snapshots@ =~= all.map_values(|d: D| d.spec_handle_undo().spec_edit_snapshot()));
        let action = HistoryAction::Reset { drawables: snapshots };
        proof {
            lemma_steps_push(self.history@, action);
        }
        self.history.push(action);
        self.redo_history.clear();
        assert(self@ =~= old(self)@.reset().0);
        true
    }

    pub fn set_active_tool(&mut self, active_tool: Tools)
        ensures
            final(self)@ == old(self)@.set_active_tool(active_tool),
    {
        if active_tool != Tools::Pointer {
            self.clear_object_selection();
            self.selection_focus.focused = None;
        }
        self.active_tool = active_tool;
    }

    /// Selects the topmost object at `pos`. True if the selection changed.
    pub fn pointer_click(&mut self, pos: Vec2D<S>) -> (r: bool)
        ensures
            (final(self)@, r) == old(self)@.pointer_click(pos),
    {
        let old_selection = self.selection_focus.selected;
        self.transform_session = None;
        let selection = self.find_drawable_at(pos);
        self.selection_focus.set_selected(selection);
        old_selection != self.selection_focus.selected
    }

    /// Takes a text off the canvas, to be edited by its tool.
    pub fn take_text_edit_at(&mut self, pos: Vec2D<S>) -> (r: Option<(usize, D)>)
        ensures
            (final(self)@, r) == old(self)@.take_text_edit_at(pos),
    {
        self.transform_session = None;
        let Some(index) = self.find_drawable_at(pos) else {
            return None;
        };
        proof {
            assert(self.drawables.len() <= usize::MAX);
            lemma_topmost_body(self.drawables@, pos, self@.object_hit_tolerance());
        }
        if !self.drawables[index].supports_text_edit() {
            return None;
        }
        self.selection_focus.clear();
        let drawable = self.drawables.remove(index);
        Some((index, drawable))
    }

    /// Puts an object back that was taken off the canvas.
    pub fn restore_drawable(&mut self, index: usize, drawable: D)
        ensures
            final(self)@ == old(self)@.restore_drawable(index, drawable),
    {
        self.clear_object_selection();
        self.insert_or_push(index, drawable);
        self.selection_focus.focused = Some(index);
    }

    /// Puts an object back that was taken off the canvas and changed there, and
    /// records the change.
    pub fn modify_drawable(&mut self, index: usize, before: D, after: D)
        ensures
            final(self)@ == old(self)@.modify_drawable(index, before, after),
    {
        self.clear_object_selection();
        let snapshot = after.edit_snapshot();
        self.insert_or_push(index, snapshot);
        self.selection_focus.focused = Some(index);
        let action = HistoryAction::Modify { index, before, after };
        proof {
            lemma_steps_push(self.history@, action);
        }
        self.history.push(action);
        self.redo_history.clear();
        assert(self@ =~= old(self)@.modify_drawable(index, before, after));
    }

    /// Begins to drag a handle of the selected object, or else the topmost object
    /// at `pos`. True if a drag began or the selection changed.
    pub fn pointer_begin_drag(&mut self, pos: Vec2D<S>) -> (r: bool)
        ensures
            (final(self)@, r) == old(self)@.pointer_begin_drag(pos),
    {
        self.transform_session = None;
        if let Some(hit) = self.hit_selected_handle(pos) {
            self.start_transform_session(hit.index, hit.action());
            return true;
        }
        let old_selection = self.selection_focus.selected;
        let selection = self.find_drawable_at(pos);
        self.selection_focus.set_selected(selection);
        if let Some(index) = self.selection_focus.selected {
            self.start_transform_session(index, ObjectEditAction::Move);
        }
        old_selection != self.selection_focus.selected || self.transform_session.is_some()
    }

    /// The cursor that shows what a drag at `pos` would do.
    pub fn pointer_hover_cursor(&self, pos: Vec2D<S>) -> (r: Option<PointerCursor>)
        ensures
            r == self@.pointer_hover_cursor(pos),
    {
        if let Some(hit) = self.hit_selected_handle(pos) {
            if let HitPart::Handle(handle) = hit.part {
                return Some(cursor_for_handle(handle));
            }
        }
        match self.find_drawable_at(pos) {
            Some(_) => Some(PointerCursor::Move),
            None => None,
        }
    }

    /// Makes the topmost object at `pos` the target of style changes, without
    /// selecting it.
    pub fn temporary_pointer_click(&mut self, pos: Vec2D<S>) -> (r: bool)
        ensures
            (final(self)@, r) == old(self)@.temporary_pointer_click(pos),
    {
        self.transform_session = None;
        if let Some(index) = self.find_drawable_at(pos) {
            self.selection_focus.focus_without_selection(index);
            return true;
        }
        false
    }

    /// Begins to drag a handle of any object, or else the topmost object at
    /// `pos`, without selecting it.
    pub fn temporary_pointer_begin_drag(&mut self, pos: Vec2D<S>) -> (r: bool)
        ensures
            (final(self)@, r) == old(self)@.temporary_pointer_begin_drag(pos),
    {
        self.transform_session = None;
        if let Some(hit) = self.hit_any_handle(pos) {
            self.selection_focus.focus_without_selection(hit.index);
            self.start_transform_session(hit.index, hit.action());
            return true;
        }
        if let Some(hit) = self.hit_body(pos) {
            self.selection_focus.focus_without_selection(hit.index);
            self.start_transform_session(hit.index, ObjectEditAction::Move);
            return true;
        }
        false
    }

    pub fn temporary_pointer_hover_cursor(&self, pos: Vec2D<S>) -> (r: Option<PointerCursor>)
        ensures
            r == self@.temporary_pointer_hover_cursor(pos),
    {
        if let Some(hit) = self.hit_any_handle(pos) {
            if let HitPart::Handle(handle) = hit.part {
                return Some(cursor_for_handle(handle));
            }
        }
        match self.find_drawable_at(pos) {
            Some(_) => Some(PointerCursor::Move),
            None => None,
        }
    }

    /// Tells whether a drag is in progress.
    pub fn pointer_edit_active(&self) -> (r: bool)
        ensures
            r == (self@.transform_session is Some),
    {
        self.transform_session.is_some()
    }

    /// Shows the dragged object `delta` away from where the drag began.
    pub fn pointer_update_drag(&mut self, delta: Vec2D<S>) -> (r: bool)
        ensures
            (final(self)@, r) == old(self)@.apply_transform_session(delta, true),
    {
        self.apply_transform_session(delta, true)
    }

    /// Ends a drag `delta` away from where it began. True if the object changed.
    pub fn pointer_end_drag(&mut self, delta: Vec2D<S>) -> (r: bool)
        ensures
            (final(self)@, r) == old(self)@.pointer_end_drag(delta),
    {
        if !self.apply_transform_session(delta, false) {
            self.transform_session = None;
            return false;
        }
        let Some(edit) = self.transform_session.take() else {
            return false;
        };
        let after = self.drawables[edit.index].edit_snapshot();
        let action = HistoryAction::Modify { index: edit.index, before: edit.before, after };
        proof {
            lemma_steps_push(self.history@, action);
        }
        self.history.push(action);
        self.selection_focus.focused = Some(edit.index);
        self.redo_history.clear();
        assert(self@ =~= old(self)@.pointer_end_drag(delta).0);
        true
    }

    /// Changes the style of the selected object, or else of the focused one.
    pub fn apply_style_change_to_target(&mut self, change: StyleChange<S>) -> (r: bool)
        ensures
            (final(self)@, r) == old(self)@.apply_style_change_to_target(change),
    {
        let Some(index) = self.selection_focus.target() else {
            return false;
        };
        if index >= self.drawables.len() {
            self.selection_focus.focused = None;
            return false;
        }
        let before = self.drawables[index].edit_snapshot();
        if !self.drawables[index].apply_style_change(change) {
            return false;
        }
        self.drawables[index].invalidate_edit_cache();
        let after = self.drawables[index].edit_snapshot();
        let action = HistoryAction::Modify { index, before, after };
        proof {
            lemma_steps_push(self.history@, action);
        }
        self.history.push(action);
        self.redo_history.clear();
        self.selection_focus.focused = Some(index);
        assert(self@ =~= old(self)@.apply_style_change_to_target(change).0);
        true
    }

    fn apply_transform_session(&mut self, delta: Vec2D<S>, preview: bool) -> (r: bool)
        ensures
            (final(self)@, r) == old(self)@.apply_transform_session(delta, preview),
    {
        let Some(edit) = &self.transform_session else {
            return false;
        };
        if edit.index >= self.drawables.len() {
            return false;
        }
        let index: usize = edit.index;
        let action = edit.action;
        let mut drawable = edit.before.edit_snapshot();
        if preview {
            drawable.begin_edit_session();
        }
        let changed = match action {
            ObjectEditAction::Move => drawable.move_by(delta),
            ObjectEditAction::Resize(handle) => drawable.resize(handle, delta),
        };
        if changed && preview {
            drawable.invalidate_edit_cache();
        }
        if changed && !preview {
            drawable.end_edit_session();
        }
        self.drawables.set(index, drawable);
        changed
    }

    fn hit_selected_handle(&self, pos: Vec2D<S>) -> (r: Option<HitResult>)
        ensures
            r == self@.hit_selected_handle(pos),
    {
        let tolerance = self.object_hit_tolerance();
        let Some(index) = self.selection_focus.selected else {
            return None;
        };
        if index >= self.drawables.len() {
            return None;
        }
        let handles = self.drawables[index].edit_handles();
        assert(handles@ =~= handles_of(self.drawables@[index as int]));
        match closest_handle(handles.as_slice(), pos, tolerance) {
            Some(handle) => Some(HitResult { index, part: HitPart::Handle(handle) }),
            None => None,
        }
    }

    fn hit_any_handle(&self, pos: Vec2D<S>) -> (r: Option<HitResult>)
        ensures
            r == self@.hit_any_handle(pos),
    {
        let tolerance = self.object_hit_tolerance();
        let mut k: usize = self.drawables.len();
        assert(self.drawables@.take(k as int) =~= self.drawables@);
        while k > 0
            invariant
                k <= self.drawables@.len(),
                tolerance == self@.object_hit_tolerance(),
                topmost_handle(self.drawables@.take(k as int), pos, tolerance) == topmost_handle(
                    self.drawables@,
                    pos,
                    tolerance,
                ),
            decreases k,
        {
            let index: usize = k - 1;
            let ghost rest = self.drawables@.take(k as int);
            assert(rest.last() == self.drawables@[index as int]);
            assert(rest.drop_last() =~= self.drawables@.take(index as int));
            let handles = self.drawables[index].edit_handles();
            assert(handles@ =~= handles_of(self.drawables@[index as int]));
            if let Some(handle) = closest_handle(handles.as_slice(), pos, tolerance) {
                return Some(HitResult { index, part: HitPart::Handle(handle) });
            }
            k = index;
        }
        None
    }

    fn start_transform_session(&mut self, index: usize, action: ObjectEditAction) -> (r: bool)
        ensures
            final(self)@ == old(self)@.start_transform_session(index, action),
            r == (index < old(self)@.drawables.len()),
    {
        if index >= self.drawables.len() {
            return false;
        }
        let before = self.drawables[index].edit_snapshot();
        self.transform_session = Some(TransformSession { index, action, before });
        true
    }

    fn find_drawable_at(&self, pos: Vec2D<S>) -> (r: Option<usize>)
        ensures
            r == self@.find_drawable_at(pos),
    {
        match self.hit_body(pos) {
            Some(hit) => Some(hit.index),
            None => None,
        }
    }

    fn hit_body(&self, pos: Vec2D<S>) -> (r: Option<HitResult>)
        ensures
            r == self@.hit_body(pos),
    {
        let tolerance = self.object_hit_tolerance();
        let mut k: usize = self.drawables.len();
        assert(self.drawables@.take(k as int) =~= self.drawables@);
        while k > 0
            invariant
                k <= self.drawables@.len(),
                tolerance == self@.object_hit_tolerance(),
                topmost_body(self.drawables@.take(k as int), pos, tolerance) == topmost_body(
                    self.drawables@,
                    pos,
                    tolerance,
                ),
            decreases k,
        {
            let index: usize = k - 1;
            let ghost rest = self.drawables@.take(k as int);
            assert(rest.last() == self.drawables@[index as int]);
            assert(rest.drop_last() =~= self.drawables@.take(index as int));
            let drawable = &self.drawables[index];
            if drawable.edit_bounds().is_some() && drawable.hit_test(pos, tolerance) {
                return Some(HitResult { index, part: HitPart::Body });
            }
            k = index;
        }
        None
    }

    fn object_hit_tolerance(&self) -> (r: S)
        ensures
            r == self@.object_hit_tolerance(),
    {
        let smallest = S::from_int(1).over(S::from_int(100));
        S::from_int(10).over(self.scale_factor.larger_of(smallest))
    }

    fn image_size(&self) -> (r: Vec2D<S>)
        ensures
            r == self@.image_size(),
    {
        Vec2D::new(S::from_int(self.image_width as i64), S::from_int(self.image_height as i64))
    }

    /// Adapts scale and offset to a canvas of the given size.
    pub fn update_transformation(&mut self, canvas_width: u32, canvas_height: u32)
        ensures
            final(self)@ == old(self)@.update_transformation(canvas_width, canvas_height),
    {
        let image = self.image_size();
        let canvas = Vec2D::new(S::from_int(canvas_width as i64), S::from_int(canvas_height as i64));
        let zero = S::from_int(0);
        let two = S::from_int(2);
        let prev_scale = self.scale_factor;

        if !self.zoom_scale.same_as(zero) {
            if !self.zoom_scale.same_as(self.last_scale) {
                self.last_scale = self.zoom_scale;
                self.scale_factor = self.zoom_scale;

                if !self.is_reset {
                    let zoom_offset = self.pointer_offset.minus(self.offset).over(prev_scale);
                    let calculated_offset = self.pointer_offset.minus(
                        zoom_offset.times(self.scale_factor),
                    );
                    let center_offset = canvas.minus(image.times(self.scale_factor)).over(two);
                    self.drag_offset = calculated_offset.minus(center_offset);
                    self.store_last_offset();
                }
            } else {
                self.scale_factor = self.zoom_scale;
            }
        } else {
            let aspect_ratio = image.x.over(image.y);
            self.scale_factor = if canvas.x.over(aspect_ratio).at_most(canvas.y) {
                canvas.x.over(aspect_ratio).over(image.y)
            } else {
                canvas.y.times(aspect_ratio).over(image.x)
            };
        }

        let center_offset = canvas.minus(image.times(self.scale_factor)).over(two);
        if self.is_reset {
            self.is_reset = false;
            self.offset = center_offset;
        } else {
            self.offset = center_offset.plus(self.drag_offset);
        }
    }

    pub fn abs_canvas_to_image_coordinates(&self, input: Vec2D<S>, dpi_scale_factor: S) -> (r:
        Vec2D<S>)
        ensures
            r == self@.abs_canvas_to_image_coordinates(input, dpi_scale_factor),
    {
        input.times(dpi_scale_factor).minus(self.offset).over(self.scale_factor)
    }

    pub fn rel_canvas_to_image_coordinates(&self, input: Vec2D<S>, dpi_scale_factor: S) -> (r:
        Vec2D<S>)
        ensures
            r == self@.rel_canvas_to_image_coordinates(input, dpi_scale_factor),
    {
        input.times(dpi_scale_factor).over(self.scale_factor)
    }

    pub fn set_zoom_scale(&mut self, factor: S, abs: bool)
        ensures
            final(self)@ == old(self)@.set_zoom_scale(factor, abs),
    {
        if self.is_drag {
            return;
        }
        if abs {
            self.zoom_scale = factor;
        } else {
            let zero = S::from_int(0);
            if self.zoom_scale.same_as(zero) {
                self.zoom_scale = self.scale_factor;
            }
            self.zoom_scale = self.zoom_scale.times(factor);
            self.zoom_scale = self.zoom_scale.larger_of(zero);
        }
    }

    pub fn set_pointer_offset(&mut self, offset: Vec2D<S>)
        ensures
            final(self)@ == old(self)@.set_pointer_offset(offset),
    {
        self.pointer_offset = offset;
    }

    pub fn set_drag_offset(&mut self, offset: Vec2D<S>)
        ensures
            final(self)@ == old(self)@.set_drag_offset(offset),
    {
        self.drag_offset = self.last_offset.plus(offset);
    }

    /// Lets the image be centered when the transformation is next updated.
    pub fn reset_drag_offset(&mut self)
        ensures
            final(self)@ == old(self)@.reset_drag_offset(),
    {
        self.drag_offset = Vec2D::zero();
        self.store_last_offset();
        self.is_reset = true;
    }

    pub fn store_last_offset(&mut self)
        ensures
            final(self)@ == old(self)@.store_last_offset(),
    {
        self.last_offset = self.drag_offset;
    }

    pub fn set_is_drag(&mut self, is_drag: bool)
        ensures
            final(self)@ == old(self)@.set_is_drag(is_drag),
    {
        self.is_drag = is_drag;
    }
}

} // verus!

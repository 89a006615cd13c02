//! The canvas as a mathematical value, and what each operation makes of it.
use vstd::prelude::*;

use crate::math::{Scalar, Vec2D};
use crate::style::StyleChange;
use crate::tools::edit::{spec_closest_handle, EditHandle};
use crate::tools::{handles_of, Drawable, Tools};

verus! {

/// The object that is shown as selected, and the one that style changes go to
/// while nothing is selected.
#[derive(Debug, Clone, Copy, PartialEq, Eq)]
pub struct SelectionFocusState {
    pub selected: Option<usize>,
    pub focused: Option<usize>,
}

#[derive(Debug, Clone, Copy, PartialEq, Eq, Structural)]
pub enum ObjectEditAction {
    Move,
    Resize(EditHandle),
}

#[derive(Debug, Clone, Copy, PartialEq, Eq, Structural)]
pub enum HitPart {
    Body,
    Handle(EditHandle),
}

#[derive(Debug, Clone, Copy, PartialEq, Eq, Structural)]
pub struct HitResult {
    pub index: usize,
    pub part: HitPart,
}

#[derive(Debug, Clone, Copy, PartialEq, Eq, Structural)]
pub enum PointerCursor {
    Move,
    ResizeNwSe,
    ResizeNeSw,
    ResizeNs,
    ResizeEw,
    ResizeAll,
}

/// A drag that moves or resizes the object at `index`.
#[derive(Debug, Clone, Copy)]
pub struct TransformSession<D> {
    pub index: usize,
    pub action: ObjectEditAction,
    pub before: D,
}

/// One entry of the undo or redo history.
pub enum HistoryStep<D> {
    Add { index: usize, drawable: Option<D> },
    Modify { index: usize, before: D, after: D },
    Reset { drawables: Seq<D> },
}

/// Everything that the canvas knows.
#[verifier::ext_equal]
pub struct AreaState<S, D> {
    pub image_width: i32,
    pub image_height: i32,
    pub background_uploaded: bool,
    pub transparency_created: bool,
    pub active_tool: Tools,
    pub scale_factor: S,
    pub offset: Vec2D<S>,
    pub drawables: Seq<D>,
    pub history: Seq<HistoryStep<D>>,
    pub redo_history: Seq<HistoryStep<D>>,
    pub selection_focus: SelectionFocusState,
    pub transform_session: Option<TransformSession<D>>,
    pub zoom_scale: S,
    pub last_scale: S,
    pub pointer_offset: Vec2D<S>,
    pub last_offset: Vec2D<S>,
    pub drag_offset: Vec2D<S>,
    pub is_drag: bool,
    pub is_reset: bool,
}

/// The cursor that shows what a handle does.
pub open spec fn spec_cursor_for_handle(handle: EditHandle) -> PointerCursor {
    match handle {
        EditHandle::TopLeft | EditHandle::BottomRight => PointerCursor::ResizeNwSe,
        EditHandle::TopRight | EditHandle::BottomLeft => PointerCursor::ResizeNeSw,
        EditHandle::Top | EditHandle::Bottom => PointerCursor::ResizeNs,
        EditHandle::Right | EditHandle::Left => PointerCursor::ResizeEw,
        EditHandle::Start | EditHandle::End => PointerCursor::ResizeAll,
    }
}

impl SelectionFocusState {
    pub open spec fn nothing() -> Self {
        SelectionFocusState { selected: None, focused: None }
    }

    /// `index` is both selected and focused.
    pub open spec fn on(index: Option<usize>) -> Self {
        SelectionFocusState { selected: index, focused: index }
    }

    /// `index` is focused, and nothing is selected.
    pub open spec fn focus_only(index: usize) -> Self {
        SelectionFocusState { selected: None, focused: Some(index) }
    }

    pub open spec fn spec_target(self) -> Option<usize> {
        if self.selected is Some {
            self.selected
        } else {
            self.focused
        }
    }
}

impl HitResult {
    pub open spec fn spec_action(self) -> ObjectEditAction {
        match self.part {
            HitPart::Body => ObjectEditAction::Move,
            HitPart::Handle(handle) => ObjectEditAction::Resize(handle),
        }
    }
}

/// The object can be edited, and `pos` touches it.
pub open spec fn body_hit<S: Scalar, D: Drawable<S>>(
    drawable: D,
    pos: Vec2D<S>,
    tolerance: S,
) -> bool {
    drawable.spec_edit_bounds() is Some && drawable.spec_hit_test(pos, tolerance)
}

/// The handle of the object that is nearest to `pos`, if one is in reach.
pub open spec fn handle_hit<S: Scalar, D: Drawable<S>>(
    drawable: D,
    pos: Vec2D<S>,
    tolerance: S,
) -> Option<EditHandle> {
    spec_closest_handle(handles_of(drawable), pos, tolerance)
}

/// The last object of the list that `pos` touches.
pub open spec fn topmost_body<S: Scalar, D: Drawable<S>>(
    drawables: Seq<D>,
    pos: Vec2D<S>,
    tolerance: S,
) -> Option<usize>
    decreases drawables.len(),
{
    if drawables.len() == 0 {
        None
    } else if body_hit(drawables.last(), pos, tolerance) {
        Some((drawables.len() - 1) as usize)
    } else {
        topmost_body(drawables.drop_last(), pos, tolerance)
    }
}

/// The last object of the list that has a handle in reach of `pos`, and the
/// nearest of its handles.
pub open spec fn topmost_handle<S: Scalar, D: Drawable<S>>(
    drawables: Seq<D>,
    pos: Vec2D<S>,
    tolerance: S,
) -> Option<(usize, EditHandle)>
    decreases drawables.len(),
{
    if drawables.len() == 0 {
        None
    } else {
        match handle_hit(drawables.last(), pos, tolerance) {
            Some(handle) => Some(((drawables.len() - 1) as usize, handle)),
            None => topmost_handle(drawables.drop_last(), pos, tolerance),
        }
    }
}

/// An object as it is put back from a snapshot of the history.
pub open spec fn shown<S: Scalar, D: Drawable<S>>(snapshot: D) -> D {
    snapshot.spec_edit_snapshot().spec_invalidate_edit_cache()
}

/// `drawables` with `drawable` at `index`, or at the end if there is no such place.
pub open spec fn inserted<D>(drawables: Seq<D>, index: usize, drawable: D) -> Seq<D> {
    if index >= drawables.len() {
        drawables.push(drawable)
    } else {
        drawables.insert(index as int, drawable)
    }
}

/// The scale at which an image fills the canvas without overflowing it, but for
/// rounding.
pub open spec fn fit_scale<S: Scalar>(image: Vec2D<S>, canvas: Vec2D<S>) -> S {
    let aspect_ratio = image.x.spec_over(image.y);
    if canvas.x.spec_over(aspect_ratio).spec_at_most(canvas.y) {
        canvas.x.spec_over(aspect_ratio).spec_over(image.y)
    } else {
        canvas.y.spec_times(aspect_ratio).spec_over(image.x)
    }
}

/// Where the top left corner of an image lies that is centered on the canvas.
pub open spec fn centered<S: Scalar>(image: Vec2D<S>, canvas: Vec2D<S>, scale: S) -> Vec2D<S> {
    canvas.spec_minus(image.spec_times(scale)).spec_over(S::spec_from_int(2))
}

impl<S: Scalar, D: Drawable<S>> AreaState<S, D> {
    /// An image that was just opened: nothing is drawn on it, and its scale is
    /// the given one, or else the one that makes it fit.
    pub open spec fn fresh(
        active_tool: Tools,
        image_width: i32,
        image_height: i32,
        input_scale: Option<S>,
    ) -> Self {
        let initial_scale = match input_scale {
            Some(scale) => scale,
            None => S::spec_from_int(0),
        };
        AreaState {
            image_width,
            image_height,
            background_uploaded: false,
            transparency_created: false,
            active_tool,
            scale_factor: S::spec_from_int(1),
            offset: Vec2D::spec_zero(),
            drawables: Seq::empty(),
            history: Seq::empty(),
            redo_history: Seq::empty(),
            selection_focus: SelectionFocusState::nothing(),
            transform_session: None,
            zoom_scale: initial_scale,
            last_scale: initial_scale,
            pointer_offset: Vec2D::spec_zero(),
            last_offset: Vec2D::spec_zero(),
            drag_offset: Vec2D::spec_zero(),
            is_drag: false,
            is_reset: false,
        }
    }

    /// The state with nothing selected and no drag in progress.
    pub open spec fn clear_object_selection(self) -> Self {
        AreaState {
            selection_focus: SelectionFocusState { selected: None, ..self.selection_focus },
            transform_session: None,
            ..self
        }
    }

    /// The state with nothing selected, nothing focused and no drag in progress.
    pub open spec fn clear_target(self) -> Self {
        AreaState {
            selection_focus: SelectionFocusState::nothing(),
            transform_session: None,
            ..self
        }
    }

    /// The state with `step` as the latest change. What was undone cannot be
    /// redone any more.
    pub open spec fn record(self, step: HistoryStep<D>) -> Self {
        AreaState { history: self.history.push(step), redo_history: Seq::empty(), ..self }
    }

    pub open spec fn commit(self, drawable: D) -> Self {
        let index = self.drawables.len() as usize;
        AreaState {
            drawables: self.drawables.push(drawable),
            selection_focus: SelectionFocusState::focus_only(index),
            transform_session: None,
            ..self.record(HistoryStep::Add { index, drawable: None })
        }
    }

    /// Takes the latest change back. A change that does not fit the objects on
    /// the canvas is forgotten.
    pub open spec fn undo(self) -> (Self, bool) {
        let s = self.clear_target();
        if self.history.len() == 0 {
            (s, false)
        } else {
            let s = AreaState { history: self.history.drop_last(), ..s };
            match self.history.last() {
                HistoryStep::Add { index, .. } => if index >= self.drawables.len() {
                    (s, false)
                } else {
                    let removed = self.drawables[index as int].spec_handle_undo();
                    (
                        AreaState {
                            drawables: self.drawables.remove(index as int),
                            redo_history: self.redo_history.push(
                                HistoryStep::Add { index, drawable: Some(removed) },
                            ),
                            ..s
                        },
                        true,
                    )
                },
                HistoryStep::Modify { index, before, after } => if index >= self.drawables.len() {
                    (s, false)
                } else {
                    (
                        AreaState {
                            drawables: self.drawables.update(index as int, shown(before)),
                            redo_history: self.redo_history.push(
                                HistoryStep::Modify { index, before, after },
                            ),
                            ..s
                        },
                        true,
                    )
                },
                HistoryStep::Reset { drawables } => (
                    AreaState {
                        drawables: drawables.map_values(
                            |d: D| d.spec_edit_snapshot().spec_handle_redo(),
                        ),
                        redo_history: self.redo_history.push(HistoryStep::Reset { drawables }),
                        ..s
                    },
                    true,
                ),
            }
        }
    }

    /// Makes the change again that was undone last. A change that cannot be made
    /// any more is forgotten.
    pub open spec fn redo(self) -> (Self, bool) {
        let s = self.clear_target();
        if self.redo_history.len() == 0 {
            (s, false)
        } else {
            let s = AreaState { redo_history: self.redo_history.drop_last(), ..s };
            match self.redo_history.last() {
                HistoryStep::Add { index, drawable: None } => (s, false),
                HistoryStep::Add { index, drawable: Some(drawable) } => (
                    AreaState {
                        drawables: inserted(self.drawables, index, drawable.spec_handle_redo()),
                        history: self.history.push(HistoryStep::Add { index, drawable: None }),
                        ..s
                    },
                    true,
                ),
                HistoryStep::Modify { index, before, after } => if index >= self.drawables.len() {
                    (s, false)
                } else {
                    (
                        AreaState {
                            drawables: self.drawables.update(index as int, shown(after)),
                            history: self.history.push(
                                HistoryStep::Modify { index, before, after },
                            ),
                            ..s
                        },
                        true,
                    )
                },
                HistoryStep::Reset { drawables } => (
                    AreaState {
                        drawables: Seq::empty(),
                        history: self.history.push(HistoryStep::Reset { drawables }),
                        ..s
                    },
                    true,
                ),
            }
        }
    }

    /// Removes all objects. Without objects there is nothing to reset.
    pub open spec fn reset(self) -> (Self, bool) {
        let s = self.clear_target();
        if self.drawables.len() == 0 {
            (s, false)
        } else {
            let removed = self.drawables.map_values(
                |d: D| d.spec_handle_undo().spec_edit_snapshot(),
            );
            (
                AreaState {
                    drawables: Seq::empty(),
                    ..s.record(HistoryStep::Reset { drawables: removed })
                },
                true,
            )
        }
    }

    /// Only the pointer keeps the selection and the target of style changes.
    pub open spec fn set_active_tool(self, active_tool: Tools) -> Self {
        if active_tool is Pointer {
            AreaState { active_tool, ..self }
        } else {
            AreaState { active_tool, ..self.clear_target() }
        }
    }

    /// Ten pixels on the screen, in image coordinates.
    pub open spec fn object_hit_tolerance(self) -> S {
        S::spec_from_int(10).spec_over(
            self.scale_factor.spec_larger_of(S::spec_from_int(1).spec_over(S::spec_from_int(100))),
        )
    }

    pub open spec fn find_drawable_at(self, pos: Vec2D<S>) -> Option<usize> {
        topmost_body(self.drawables, pos, self.object_hit_tolerance())
    }

    pub open spec fn hit_body(self, pos: Vec2D<S>) -> Option<HitResult> {
        match self.find_drawable_at(pos) {
            Some(index) => Some(HitResult { index, part: HitPart::Body }),
            None => None,
        }
    }

    pub open spec fn hit_any_handle(self, pos: Vec2D<S>) -> Option<HitResult> {
        match topmost_handle(self.drawables, pos, self.object_hit_tolerance()) {
            Some((index, handle)) => Some(HitResult { index, part: HitPart::Handle(handle) }),
            None => None,
        }
    }

    /// The handle of the selected object that is nearest to `pos`.
    pub open spec fn selected_handle(self, pos: Vec2D<S>) -> Option<EditHandle> {
        match self.selection_focus.selected {
            Some(index) if index < self.drawables.len() => handle_hit(
                self.drawables[index as int],
                pos,
                self.object_hit_tolerance(),
            ),
            _ => None,
        }
    }

    pub open spec fn hit_selected_handle(self, pos: Vec2D<S>) -> Option<HitResult> {
        match self.selected_handle(pos) {
            Some(handle) => Some(
                HitResult {
                    index: self.selection_focus.selected->0,
                    part: HitPart::Handle(handle),
                },
            ),
            None => None,
        }
    }

    pub open spec fn start_transform_session(self, index: usize, action: ObjectEditAction) -> Self {
        if index < self.drawables.len() {
            let before = self.drawables[index as int].spec_edit_snapshot();
            AreaState { transform_session: Some(TransformSession { index, action, before }), ..self }
        } else {
            self
        }
    }

    pub open spec fn pointer_click(self, pos: Vec2D<S>) -> (Self, bool) {
        let hit = self.find_drawable_at(pos);
        (
            AreaState {
                selection_focus: SelectionFocusState::on(hit),
                transform_session: None,
                ..self
            },
            self.selection_focus.selected != hit,
        )
    }

    /// Takes a text off the canvas, to be edited by its tool.
    pub open spec fn take_text_edit_at(self, pos: Vec2D<S>) -> (Self, Option<(usize, D)>) {
        let s = AreaState { transform_session: None, ..self };
        match self.find_drawable_at(pos) {
            Some(index) if self.drawables[index as int].spec_supports_text_edit() => (
                AreaState {
                    drawables: self.drawables.remove(index as int),
                    selection_focus: SelectionFocusState::nothing(),
                    ..s
                },
                Some((index, self.drawables[index as int])),
            ),
            _ => (s, None),
        }
    }

    /// Puts an object back that was taken off the canvas.
    pub open spec fn restore_drawable(self, index: usize, drawable: D) -> Self {
        AreaState {
            drawables: inserted(self.drawables, index, drawable),
            selection_focus: SelectionFocusState::focus_only(index),
            transform_session: None,
            ..self
        }
    }

    /// Puts an object back that was taken off the canvas and changed there.
    pub open spec fn modify_drawable(self, index: usize, before: D, after: D) -> Self {
        self.restore_drawable(index, after.spec_edit_snapshot()).record(
            HistoryStep::Modify { index, before, after },
        )
    }

    /// A handle of the selected object is dragged first; otherwise the topmost
    /// object under the pointer is selected and moved.
    pub open spec fn pointer_begin_drag(self, pos: Vec2D<S>) -> (Self, bool) {
        let s = AreaState { transform_session: None, ..self };
        match self.hit_selected_handle(pos) {
            Some(hit) => (s.start_transform_session(hit.index, hit.spec_action()), true),
            None => {
                let selection = self.find_drawable_at(pos);
                let s = AreaState { selection_focus: SelectionFocusState::on(selection), ..s };
                let s = match selection {
                    Some(index) => s.start_transform_session(index, ObjectEditAction::Move),
                    None => s,
                };
                (s, self.selection_focus.selected != selection || s.transform_session is Some)
            },
        }
    }

    pub open spec fn pointer_hover_cursor(self, pos: Vec2D<S>) -> Option<PointerCursor> {
        match self.selected_handle(pos) {
            Some(handle) => Some(spec_cursor_for_handle(handle)),
            None => match self.find_drawable_at(pos) {
                Some(_) => Some(PointerCursor::Move),
                None => None,
            },
        }
    }

    pub open spec fn temporary_pointer_click(self, pos: Vec2D<S>) -> (Self, bool) {
        let s = AreaState { transform_session: None, ..self };
        match self.find_drawable_at(pos) {
            Some(index) => (
                AreaState { selection_focus: SelectionFocusState::focus_only(index), ..s },
                true,
            ),
            None => (s, false),
        }
    }

    /// What a drag at `pos` takes hold of: a handle of any object, or else the
    /// topmost object under the pointer.
    pub open spec fn temporary_hit(self, pos: Vec2D<S>) -> Option<HitResult> {
        match self.hit_any_handle(pos) {
            Some(hit) => Some(hit),
            None => self.hit_body(pos),
        }
    }

    pub open spec fn temporary_pointer_begin_drag(self, pos: Vec2D<S>) -> (Self, bool) {
        let s = AreaState { transform_session: None, ..self };
        match self.temporary_hit(pos) {
            Some(hit) => (
                AreaState {
                    selection_focus: SelectionFocusState::focus_only(hit.index),
                    ..s
                }.start_transform_session(hit.index, hit.spec_action()),
                true,
            ),
            None => (s, false),
        }
    }

    pub open spec fn temporary_pointer_hover_cursor(self, pos: Vec2D<S>) -> Option<PointerCursor> {
        match self.temporary_hit(pos) {
            Some(HitResult { part: HitPart::Handle(handle), .. }) => Some(
                spec_cursor_for_handle(handle),
            ),
            Some(HitResult { part: HitPart::Body, .. }) => Some(PointerCursor::Move),
            None => None,
        }
    }

    /// The dragged object: always its snapshot from before the drag, displaced
    /// by `delta` as a whole or at one handle.
    pub open spec fn transformed(
        session: TransformSession<D>,
        delta: Vec2D<S>,
        preview: bool,
    ) -> (D, bool) {
        let d = session.before.spec_edit_snapshot();
        let d = if preview {
            d.spec_begin_edit_session()
        } else {
            d
        };
        let (d, changed) = match session.action {
            ObjectEditAction::Move => d.spec_move_by(delta),
            ObjectEditAction::Resize(handle) => d.spec_resize(handle, delta),
        };
        if !changed {
            (d, false)
        } else if preview {
            (d.spec_invalidate_edit_cache(), true)
        } else {
            (d.spec_end_edit_session(), true)
        }
    }

    pub open spec fn apply_transform_session(self, delta: Vec2D<S>, preview: bool) -> (Self, bool) {
        match self.transform_session {
            Some(session) if session.index < self.drawables.len() => {
                let (d, changed) = Self::transformed(session, delta, preview);
                (
                    AreaState {
                        drawables: self.drawables.update(session.index as int, d),
                        ..self
                    },
                    changed,
                )
            },
            _ => (self, false),
        }
    }

    /// Ends a drag. Only a drag that changed the object is recorded.
    pub open spec fn pointer_end_drag(self, delta: Vec2D<S>) -> (Self, bool) {
        let (s, changed) = self.apply_transform_session(delta, false);
        if !changed {
            (AreaState { transform_session: None, ..s }, false)
        } else {
            let session = self.transform_session->0;
            let after = s.drawables[session.index as int].spec_edit_snapshot();
            (
                AreaState {
                    transform_session: None,
                    selection_focus: SelectionFocusState {
                        focused: Some(session.index),
                        ..self.selection_focus
                    },
                    ..s.record(
                        HistoryStep::Modify { index: session.index, before: session.before, after },
                    )
                },
                true,
            )
        }
    }

    /// Changes the style of the selected object, or else of the focused one.
    /// Only a change that the object takes over is recorded.
    pub open spec fn apply_style_change_to_target(self, change: StyleChange<S>) -> (Self, bool) {
        match self.selection_focus.spec_target() {
            None => (self, false),
            Some(index) => if index >= self.drawables.len() {
                (
                    AreaState {
                        selection_focus: SelectionFocusState {
                            focused: None,
                            ..self.selection_focus
                        },
                        ..self
                    },
                    false,
                )
            } else {
                let old = self.drawables[index as int];
                let (new, changed) = old.spec_apply_style_change(change);
                if !changed {
                    (
                        AreaState { drawables: self.drawables.update(index as int, new), ..self },
                        false,
                    )
                } else {
                    let new = new.spec_invalidate_edit_cache();
                    (
                        AreaState {
                            drawables: self.drawables.update(index as int, new),
                            selection_focus: SelectionFocusState {
                                focused: Some(index),
                                ..self.selection_focus
                            },
                            ..self.record(
                                HistoryStep::Modify {
                                    index,
                                    before: old.spec_edit_snapshot(),
                                    after: new.spec_edit_snapshot(),
                                },
                            )
                        },
                        true,
                    )
                }
            },
        }
    }

    pub open spec fn image_size(self) -> Vec2D<S> {
        Vec2D {
            x: S::spec_from_int(self.image_width as i64),
            y: S::spec_from_int(self.image_height as i64),
        }
    }

    /// The scale was changed by hand since the transformation was last updated.
    pub open spec fn zoom_changed(self) -> bool {
        &&& !self.zoom_scale.spec_same_as(S::spec_from_int(0))
        &&& !self.zoom_scale.spec_same_as(self.last_scale)
    }

    /// The scale of the image: the one set by hand, or else the one that makes
    /// the image fit.
    pub open spec fn shown_scale(self, canvas: Vec2D<S>) -> S {
        if self.zoom_scale.spec_same_as(S::spec_from_int(0)) {
            fit_scale(self.image_size(), canvas)
        } else {
            self.zoom_scale
        }
    }

    /// How far the image is dragged from the center. After a change of the scale
    /// the point of the image that was under the pointer is there again.
    pub open spec fn shown_drag_offset(self, canvas: Vec2D<S>) -> Vec2D<S> {
        if self.zoom_changed() && !self.is_reset {
            let under_pointer = self.pointer_offset.spec_minus(self.offset).spec_over(
                self.scale_factor,
            );
            self.pointer_offset.spec_minus(under_pointer.spec_times(self.zoom_scale)).spec_minus(
                centered(self.image_size(), canvas, self.zoom_scale),
            )
        } else {
            self.drag_offset
        }
    }

    pub open spec fn update_transformation(self, canvas_width: u32, canvas_height: u32) -> Self {
        let canvas = Vec2D {
            x: S::spec_from_int(canvas_width as i64),
            y: S::spec_from_int(canvas_height as i64),
        };
        let scale_factor = self.shown_scale(canvas);
        let drag_offset = self.shown_drag_offset(canvas);
        let center = centered(self.image_size(), canvas, scale_factor);
        AreaState {
            scale_factor,
            drag_offset,
            last_offset: if self.zoom_changed() && !self.is_reset {
                drag_offset
            } else {
                self.last_offset
            },
            last_scale: if self.zoom_changed() {
                self.zoom_scale
            } else {
                self.last_scale
            },
            offset: if self.is_reset {
                center
            } else {
                center.spec_plus(drag_offset)
            },
            is_reset: false,
            ..self
        }
    }

    /// A point of the canvas widget, in image coordinates.
    pub open spec fn abs_canvas_to_image_coordinates(self, input: Vec2D<S>, dpi_scale_factor: S) -> Vec2D<
        S,
    > {
        input.spec_times(dpi_scale_factor).spec_minus(self.offset).spec_over(self.scale_factor)
    }

    /// A displacement on the canvas widget, in image coordinates.
    pub open spec fn rel_canvas_to_image_coordinates(self, input: Vec2D<S>, dpi_scale_factor: S) -> Vec2D<
        S,
    > {
        input.spec_times(dpi_scale_factor).spec_over(self.scale_factor)
    }

    /// Sets the scale, or multiplies it. The scale stays while the image is dragged.
    pub open spec fn set_zoom_scale(self, factor: S, abs: bool) -> Self {
        if self.is_drag {
            self
        } else if abs {
            AreaState { zoom_scale: factor, ..self }
        } else {
            let base = if self.zoom_scale.spec_same_as(S::spec_from_int(0)) {
                self.scale_factor
            } else {
                self.zoom_scale
            };
            AreaState {
                zoom_scale: base.spec_times(factor).spec_larger_of(S::spec_from_int(0)),
                ..self
            }
        }
    }

    pub open spec fn set_pointer_offset(self, offset: Vec2D<S>) -> Self {
        AreaState { pointer_offset: offset, ..self }
    }

    pub open spec fn set_drag_offset(self, offset: Vec2D<S>) -> Self {
        AreaState { drag_offset: self.last_offset.spec_plus(offset), ..self }
    }

    pub open spec fn store_last_offset(self) -> Self {
        AreaState { last_offset: self.drag_offset, ..self }
    }

    pub open spec fn reset_drag_offset(self) -> Self {
        AreaState {
            drag_offset: Vec2D::spec_zero(),
            last_offset: Vec2D::spec_zero(),
            is_reset: true,
            ..self
        }
    }

    pub open spec fn set_is_drag(self, is_drag: bool) -> Self {
        AreaState { is_drag, ..self }
    }
}

} // verus!

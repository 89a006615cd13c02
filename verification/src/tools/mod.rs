//! Tools, and the objects that they draw.
pub mod edit;
pub mod hits;
pub mod laws;
pub mod line;

use vstd::prelude::*;

use crate::math::{Scalar, Vec2D};
use crate::sketch_board::events::InputEvent;
use crate::style::{Style, StyleChange};
use crate::tools::edit::{EditHandle, ObjectBounds};

verus! {

#[derive(Debug, Clone, Copy, PartialEq, Eq, Structural)]
pub enum Tools {
    Pointer,
    Crop,
    Brush,
    Line,
    Arrow,
    Rectangle,
    Ellipse,
    Text,
    Marker,
    Blur,
    Highlight,
}

/// The place of a tool in a list with one tool of each kind.
pub open spec fn slot_of(tool: Tools) -> usize {
    match tool {
        Tools::Pointer => 0,
        Tools::Crop => 1,
        Tools::Brush => 2,
        Tools::Line => 3,
        Tools::Arrow => 4,
        Tools::Rectangle => 5,
        Tools::Ellipse => 6,
        Tools::Text => 7,
        Tools::Marker => 8,
        Tools::Blur => 9,
        Tools::Highlight => 10,
    }
}

impl Tools {
    pub fn slot(self) -> (r: usize)
        ensures
            r == slot_of(self),
            r <= slot_of(Tools::Highlight),
    {
        match self {
            Tools::Pointer => 0,
            Tools::Crop => 1,
            Tools::Brush => 2,
            Tools::Line => 3,
            Tools::Arrow => 4,
            Tools::Rectangle => 5,
            Tools::Ellipse => 6,
            Tools::Text => 7,
            Tools::Marker => 8,
            Tools::Blur => 9,
            Tools::Highlight => 10,
        }
    }
}

/// An object on the canvas.
///
/// Every method is a function of the object and the arguments. Each `spec_`
/// method names what the method of that name does: the object afterwards, the
/// result, or both.
pub trait Drawable<S: Scalar>: Sized {
    spec fn spec_edit_bounds(self) -> Option<ObjectBounds<S>>;

    spec fn spec_handle_count(self) -> usize;

    spec fn spec_handle_at(self, i: usize) -> (EditHandle, Vec2D<S>);

    spec fn spec_hit_test(self, pos: Vec2D<S>, tolerance: S) -> bool;

    spec fn spec_move_by(self, delta: Vec2D<S>) -> (Self, bool);

    spec fn spec_resize(self, handle: EditHandle, delta: Vec2D<S>) -> (Self, bool);

    spec fn spec_apply_style_change(self, change: StyleChange<S>) -> (Self, bool);

    spec fn spec_supports_text_edit(self) -> bool;

    spec fn spec_edit_snapshot(self) -> Self;

    spec fn spec_handle_undo(self) -> Self;

    spec fn spec_handle_redo(self) -> Self;

    spec fn spec_invalidate_edit_cache(self) -> Self;

    spec fn spec_begin_edit_session(self) -> Self;

    spec fn spec_end_edit_session(self) -> Self;

    /// The box around the object; none for an object that cannot be edited.
    fn edit_bounds(&self) -> (r: Option<ObjectBounds<S>>)
        ensures
            r == self.spec_edit_bounds(),
    ;

    /// The handles by which the object is resized.
    fn edit_handles(&self) -> (r: Vec<(EditHandle, Vec2D<S>)>)
        ensures
            r@ == Seq::new(
                self.spec_handle_count() as nat,
                |i: int| self.spec_handle_at(i as usize),
            ),
    ;

    /// Tells whether `pos` touches the object.
    fn hit_test(&self, pos: Vec2D<S>, tolerance: S) -> (r: bool)
        ensures
            r == self.spec_hit_test(pos, tolerance),
    ;

    /// Displaces the object. False if nothing changed.
    fn move_by(&mut self, delta: Vec2D<S>) -> (r: bool)
        ensures
            (*final(self), r) == old(self).spec_move_by(delta),
    ;

    /// Drags one handle. False if nothing changed.
    fn resize(&mut self, handle: EditHandle, delta: Vec2D<S>) -> (r: bool)
        ensures
            (*final(self), r) == old(self).spec_resize(handle, delta),
    ;

    /// Takes over one property of a style. False if nothing changed.
    fn apply_style_change(&mut self, change: StyleChange<S>) -> (r: bool)
        ensures
            (*final(self), r) == old(self).spec_apply_style_change(change),
    ;

    fn supports_text_edit(&self) -> (r: bool)
        ensures
            r == self.spec_supports_text_edit(),
    ;

    /// A copy to come back to.
    fn edit_snapshot(&self) -> (r: Self)
        ensures
            r == self.spec_edit_snapshot(),
    ;

    /// Called when the object leaves the canvas.
    fn handle_undo(&mut self)
        ensures
            *final(self) == old(self).spec_handle_undo(),
    ;

    /// Called when the object returns to the canvas.
    fn handle_redo(&mut self)
        ensures
            *final(self) == old(self).spec_handle_redo(),
    ;

    /// Called when the object was changed.
    fn invalidate_edit_cache(&mut self)
        ensures
            *final(self) == old(self).spec_invalidate_edit_cache(),
    ;

    /// Called before a change that is only a preview.
    fn begin_edit_session(&mut self)
        ensures
            *final(self) == old(self).spec_begin_edit_session(),
    ;

    /// Called after a change that stays.
    fn end_edit_session(&mut self)
        ensures
            *final(self) == old(self).spec_end_edit_session(),
    ;
}

/// The handles by which an object is resized, in order.
pub open spec fn handles_of<S: Scalar, D: Drawable<S>>(drawable: D) -> Seq<
    (EditHandle, Vec2D<S>),
> {
    Seq::new(drawable.spec_handle_count() as nat, |i: int| drawable.spec_handle_at(i as usize))
}

pub enum ToolEvent<S> {
    Activated,
    Deactivated,
    Input(InputEvent<S>),
    StyleChanged(Style<S>),
}

/// What a tool made of an event.
pub enum ToolUpdateResult<D> {
    Commit(D),
    Modify { index: usize, before: D, after: D },
    Restore { index: usize, drawable: D },
    Redraw,
    RedrawAndStopPropagation,
    StopPropagation,
    Unmodified,
}

impl<D> ToolUpdateResult<D> {
    /// Nothing is to be redrawn.
    pub open spec fn leaves_canvas(self) -> bool {
        self is Unmodified || self is StopPropagation
    }

    pub open spec fn stops(self) -> bool {
        self is StopPropagation || self is RedrawAndStopPropagation
    }

    /// The result hands an object to the canvas.
    pub open spec fn delivers(self) -> bool {
        self is Commit || self is Modify || self is Restore
    }
}

/// A tool of the toolbar.
///
/// Every method is a function of the tool and the arguments, named by the
/// `spec_` method beside it.
pub trait Tool<S: Scalar, D: Drawable<S>>: Sized {
    spec fn spec_active(self) -> bool;

    spec fn spec_input_enabled(self) -> bool;

    spec fn spec_has_drawable(self) -> bool;

    spec fn spec_get_tool_type(self) -> Tools;

    spec fn spec_handle_event(self, event: ToolEvent<S>) -> (Self, ToolUpdateResult<D>);

    spec fn spec_handle_deactivated(self) -> (Self, ToolUpdateResult<D>);

    spec fn spec_handle_undo(self) -> (Self, ToolUpdateResult<D>);

    spec fn spec_handle_redo(self) -> (Self, ToolUpdateResult<D>);

    spec fn spec_set_im_context(self, attached: bool) -> Self;

    spec fn spec_set_sender(self) -> Self;

    spec fn spec_start_existing_text_edit(self, drawable: D, index: usize) -> (
        Self,
        Result<(), D>,
    );

    /// The tool has work in progress that reacts to undo and redo.
    fn active(&self) -> (r: bool)
        ensures
            r == self.spec_active(),
    ;

    /// The tool takes text.
    fn input_enabled(&self) -> (r: bool)
        ensures
            r == self.spec_input_enabled(),
    ;

    /// The tool has an object that is not committed yet.
    fn has_drawable(&self) -> (r: bool)
        ensures
            r == self.spec_has_drawable(),
    ;

    fn get_tool_type(&self) -> (r: Tools)
        ensures
            r == self.spec_get_tool_type(),
    ;

    fn handle_event(&mut self, event: &ToolEvent<S>) -> (r: ToolUpdateResult<D>)
        ensures
            (*final(self), r) == old(self).spec_handle_event(*event),
    ;

    fn handle_deactivated(&mut self) -> (r: ToolUpdateResult<D>)
        ensures
            (*final(self), r) == old(self).spec_handle_deactivated(),
    ;

    fn handle_undo(&mut self) -> (r: ToolUpdateResult<D>)
        ensures
            (*final(self), r) == old(self).spec_handle_undo(),
    ;

    fn handle_redo(&mut self) -> (r: ToolUpdateResult<D>)
        ensures
            (*final(self), r) == old(self).spec_handle_redo(),
    ;

    /// Connects the tool to the input method, or disconnects it.
    fn set_im_context(&mut self, attached: bool)
        ensures
            *final(self) == old(self).spec_set_im_context(attached),
    ;

    /// Lets the tool send messages to the board.
    fn set_sender(&mut self)
        ensures
            *final(self) == old(self).spec_set_sender(),
    ;

    /// Opens a text that was on the canvas at `index`. A tool that cannot do
    /// that hands the object back.
    fn start_existing_text_edit(&mut self, drawable: D, index: usize) -> (r: Result<(), D>)
        ensures
            (*final(self), r) == old(self).spec_start_existing_text_edit(drawable, index),
    ;
}

/// Each tool has a place of its own.
pub proof fn lemma_tools_have_their_own_places(a: Tools, b: Tools)
    ensures
        slot_of(a) == slot_of(b) <==> a == b,
        slot_of(a) < 11,
{
}

} // verus!

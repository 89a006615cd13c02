//! The widget that shows the image with its annotations.
pub mod background;
pub mod drags;
pub mod fonts;
pub mod frames;
pub mod imp;
pub mod laws;
pub mod state;
pub mod views;

use vstd::prelude::*;
use vstd::slice::slice_to_vec;

use crate::configuration::Action;
use crate::femtovg_area::imp::FemtoVgAreaMut;
use crate::femtovg_area::state::{AreaState, PointerCursor};
use crate::math::{Scalar, Vec2D};
use crate::style::StyleChange;
use crate::tools::{Drawable, Tools};

verus! {

/// The widget as a mathematical value.
#[verifier::ext_equal]
pub struct RendererState<S, D> {
    pub inner: Option<AreaState<S, D>>,
    pub request_render: Option<Seq<Action>>,
    pub canvas_width: u32,
    pub canvas_height: u32,
    pub device_scale: i32,
    pub render_queued: bool,
    pub cursor: Option<PointerCursor>,
}

/// The widget: the canvas once there is an image, the actions that wait for the
/// next frame, the size of the frame buffer, the pixels of the screen per logical
/// pixel, whether a frame is due, and the cursor.
pub struct FemtoVGArea<S, D> {
    pub inner: Option<FemtoVgAreaMut<S, D>>,
    pub request_render: Option<Vec<Action>>,
    pub canvas_width: u32,
    pub canvas_height: u32,
    pub device_scale: i32,
    pub render_queued: bool,
    pub cursor: Option<PointerCursor>,
}

impl<S, D> View for FemtoVGArea<S, D> {
    type V = RendererState<S, D>;

    open spec fn view(&self) -> RendererState<S, D> {
        RendererState {
            inner: match self.inner {
                Some(inner) => Some(inner@),
                None => None,
            },
            request_render: match self.request_render {
                Some(actions) => Some(actions@),
                None => None,
            },
            canvas_width: self.canvas_width,
            canvas_height: self.canvas_height,
            device_scale: self.device_scale,
            render_queued: self.render_queued,
            cursor: self.cursor,
        }
    }
}

impl<S: Scalar, D: Drawable<S>> RendererState<S, D> {
    pub open spec fn area(self) -> AreaState<S, D> {
        self.inner->0
    }

    pub open spec fn with(self, area: AreaState<S, D>) -> Self {
        RendererState { inner: Some(area), ..self }
    }

    pub open spec fn device_factor(self) -> S {
        S::spec_from_int(self.device_scale as i64)
    }

    /// A frame is due, and `actions` are done with it.
    pub open spec fn request_render(self, actions: Seq<Action>) -> Self {
        RendererState { request_render: Some(actions), render_queued: true, ..self }
    }

    /// A frame begins, and the actions that waited for it are given out.
    pub open spec fn begin_frame(self) -> (Self, Option<Seq<Action>>) {
        (
            RendererState { request_render: None, render_queued: false, ..self },
            self.request_render,
        )
    }

    /// Takes over a size of the frame buffer, in which 0 means to keep it.
    pub open spec fn resize(self, width: i32, height: i32) -> Self {
        let canvas_width = if width == 0 {
            self.canvas_width
        } else {
            width as u32
        };
        let canvas_height = if height == 0 {
            self.canvas_height
        } else {
            height as u32
        };
        RendererState {
            canvas_width,
            canvas_height,
            ..self.with(self.area().update_transformation(canvas_width, canvas_height))
        }
    }

    pub open spec fn set_zoom_scale(self, factor: S) -> Self {
        self.with(self.area().set_zoom_scale(factor, false)).resize(0, 0)
    }

    pub open spec fn set_pointer_offset(self, offset: Vec2D<S>) -> Self {
        self.with(self.area().set_pointer_offset(offset.spec_times(self.device_factor())))
    }

    pub open spec fn set_drag_offset(self, offset: Vec2D<S>) -> Self {
        self.with(self.area().set_drag_offset(offset.spec_times(self.device_factor()))).resize(0, 0)
    }

    /// Sets the scale and centers the image.
    pub open spec fn reset_size(self, factor: S) -> Self {
        self.with(self.area().set_zoom_scale(factor, true).reset_drag_offset()).resize(0, 0)
    }

    pub open spec fn abs_canvas_to_image_coordinates(self, input: Vec2D<S>) -> Vec2D<S> {
        self.area().abs_canvas_to_image_coordinates(input, self.device_factor())
    }

    pub open spec fn rel_canvas_to_image_coordinates(self, input: Vec2D<S>) -> Vec2D<S> {
        self.area().rel_canvas_to_image_coordinates(input, self.device_factor())
    }
}

impl<S: Scalar, D: Drawable<S>> FemtoVGArea<S, D> {
    /// A widget without an image.
    pub fn new(device_scale: i32) -> (r: Self)
        ensures
            r@ == (RendererState::<S, D> {
                inner: None,
                request_render: None,
                canvas_width: 0,
                canvas_height: 0,
                device_scale,
                render_queued: true,
                cursor: None,
            }),
    {
        FemtoVGArea {
            inner: None,
            request_render: None,
            canvas_width: 0,
            canvas_height: 0,
            device_scale,
            render_queued: true,
            cursor: None,
        }
    }

    /// Shows an image without annotations.
    pub fn init(
        &mut self,
        active_tool: Tools,
        image_width: i32,
        image_height: i32,
        input_scale: Option<S>,
    )
        ensures
            final(self)@ == old(self)@.with(
                AreaState::fresh(active_tool, image_width, image_height, input_scale),
            ),
    {
        self.inner = Some(
            FemtoVgAreaMut::new(active_tool, image_width, image_height, input_scale),
        );
    }

    pub fn inner(&mut self) -> (r: &mut Option<FemtoVgAreaMut<S, D>>)
        ensures
            *r == old(self).inner,
            final(self).inner == *final(r),
            final(self).request_render == old(self).request_render,
            final(self).canvas_width == old(self).canvas_width,
            final(self).canvas_height == old(self).canvas_height,
            final(self).device_scale == old(self).device_scale,
            final(self).render_queued == old(self).render_queued,
            final(self).cursor == old(self).cursor,
    {
        &mut self.inner
    }

    pub fn request_render(&mut self, actions: &[Action])
        ensures
            final(self)@ == old(self)@.request_render(actions@),
    {
        self.request_render = Some(slice_to_vec(actions));
        self.render_queued = true;
    }

    pub fn queue_render(&mut self)
        ensures
            final(self)@ == (RendererState { render_queued: true, ..old(self)@ }),
    {
        self.render_queued = true;
    }

    /// Begins a frame: gives out the actions that waited for it.
    pub fn take_render_request(&mut self) -> (r: Option<Vec<Action>>)
        ensures
            final(self)@ == (RendererState {
                request_render: None,
                render_queued: false,
                ..old(self)@
            }),
            match r {
                Some(actions) => old(self)@.request_render == Some(actions@),
                None => old(self)@.request_render is None,
            },
            final(self)@ == old(self)@.begin_frame().0,
            match r {
                Some(actions) => old(self)@.begin_frame().1 == Some(actions@),
                None => old(self)@.begin_frame().1 is None,
            },
    {
        self.render_queued = false;
        self.request_render.take()
    }

    pub fn set_cursor(&mut self, cursor: Option<PointerCursor>)
        ensures
            final(self)@ == (RendererState { cursor, ..old(self)@ }),
    {
        self.cursor = cursor;
    }

    fn device_factor(&self) -> (r: S)
        ensures
            r == self@.device_factor(),
    {
        S::from_int(self.device_scale as i64)
    }

    pub fn resize(&mut self, width: i32, height: i32)
        requires
            old(self)@.inner is Some,
        ensures
            final(self)@ == old(self)@.resize(width, height),
    {
        if width != 0 {
            self.canvas_width = width as u32;
        }
        if height != 0 {
            self.canvas_height = height as u32;
        }
        let (canvas_width, canvas_height) = (self.canvas_width, self.canvas_height);
        if let Some(inner) = &mut self.inner {
            inner.update_transformation(canvas_width, canvas_height);
        }
    }

    pub fn set_active_tool(&mut self, active_tool: Tools)
        requires
            old(self)@.inner is Some,
        ensures
            final(self)@ == old(self)@.with(old(self)@.area().set_active_tool(active_tool)),
    {
        if let Some(inner) = &mut self.inner {
            inner.set_active_tool(active_tool);
        }
    }

    pub fn commit(&mut self, drawable: D)
        requires
            old(self)@.inner is Some,
        ensures
            final(self)@ == old(self)@.with(old(self)@.area().commit(drawable)),
    {
        if let Some(inner) = &mut self.inner {
            inner.commit(drawable);
        }
    }

    pub fn undo(&mut self) -> (r: bool)
        requires
            old(self)@.inner is Some,
        ensures
            final(self)@ == old(self)@.with(old(self)@.area().undo().0),
            r == old(self)@.area().undo().1,
    {
        match &mut self.inner {
            Some(inner) => inner.undo(),
            None => false,
        }
    }

    pub fn redo(&mut self) -> (r: bool)
        requires
            old(self)@.inner is Some,
        ensures
            final(self)@ == old(self)@.with(old(self)@.area().redo().0),
            r == old(self)@.area().redo().1,
    {
        match &mut self.inner {
            Some(inner) => inner.redo(),
            None => false,
        }
    }

    pub fn reset(&mut self) -> (r: bool)
        requires
            old(self)@.inner is Some,
        ensures
            final(self)@ == old(self)@.with(old(self)@.area().reset().0),
            r == old(self)@.area().reset().1,
    {
        match &mut self.inner {
            Some(inner) => inner.reset(),
            None => false,
        }
    }

    pub fn abs_canvas_to_image_coordinates(&self, input: Vec2D<S>) -> (r: Vec2D<S>)
        requires
            self@.inner is Some,
        ensures
            r == self@.abs_canvas_to_image_coordinates(input),
    {
        match &self.inner {
            Some(inner) => inner.abs_canvas_to_image_coordinates(input, self.device_factor()),
            None => input,
        }
    }

    pub fn rel_canvas_to_image_coordinates(&self, input: Vec2D<S>) -> (r: Vec2D<S>)
        requires
            self@.inner is Some,
        ensures
            r == self@.rel_canvas_to_image_coordinates(input),
    {
        match &self.inner {
            Some(inner) => inner.rel_canvas_to_image_coordinates(input, self.device_factor()),
            None => input,
        }
    }

    pub fn set_zoom_scale(&mut self, factor: S)
        requires
            old(self)@.inner is Some,
        ensures
            final(self)@ == old(self)@.set_zoom_scale(factor),
    {
        if let Some(inner) = &mut self.inner {
            inner.set_zoom_scale(factor, false);
        }
        self.resize(0, 0);
    }

    pub fn set_pointer_offset(&mut self, offset: Vec2D<S>)
        requires
            old(self)@.inner is Some,
        ensures
            final(self)@ == old(self)@.set_pointer_offset(offset),
    {
        let factor = self.device_factor();
        if let Some(inner) = &mut self.inner {
            inner.set_pointer_offset(offset.times(factor));
        }
    }

    pub fn set_drag_offset(&mut self, offset: Vec2D<S>)
        requires
            old(self)@.inner is Some,
        ensures
            final(self)@ == old(self)@.set_drag_offset(offset),
    {
        let factor = self.device_factor();
        if let Some(inner) = &mut self.inner {
            inner.set_drag_offset(offset.times(factor));
        }
        self.resize(0, 0);
    }

    pub fn store_last_offset(&mut self)
        requires
            old(self)@.inner is Some,
        ensures
            final(self)@ == old(self)@.with(old(self)@.area().store_last_offset()),
    {
        if let Some(inner) = &mut self.inner {
            inner.store_last_offset();
        }
    }

    pub fn set_is_drag(&mut self, is_drag: bool)
        requires
            old(self)@.inner is Some,
        ensures
            final(self)@ == old(self)@.with(old(self)@.area().set_is_drag(is_drag)),
    {
        if let Some(inner) = &mut self.inner {
            inner.set_is_drag(is_drag);
        }
    }

    pub fn reset_size(&mut self, factor: S)
        requires
            old(self)@.inner is Some,
        ensures
            final(self)@ == old(self)@.reset_size(factor),
    {
        if let Some(inner) = &mut self.inner {
            inner.set_zoom_scale(factor, true);
            inner.reset_drag_offset();
        }
        self.resize(0, 0);
    }

    pub fn pointer_click(&mut self, pos: Vec2D<S>) -> (r: bool)
        requires
            old(self)@.inner is Some,
        ensures
            final(self)@ == old(self)@.with(old(self)@.area().pointer_click(pos).0),
            r == old(self)@.area().pointer_click(pos).1,
    {
        match &mut self.inner {
            Some(inner) => inner.pointer_click(pos),
            None => false,
        }
    }

    pub fn pointer_begin_drag(&mut self, pos: Vec2D<S>) -> (r: bool)
        requires
            old(self)@.inner is Some,
        ensures
            final(self)@ == old(self)@.with(old(self)@.area().pointer_begin_drag(pos).0),
            r == old(self)@.area().pointer_begin_drag(pos).1,
    {
        match &mut self.inner {
            Some(inner) => inner.pointer_begin_drag(pos),
            None => false,
        }
    }

    pub fn pointer_update_drag(&mut self, delta: Vec2D<S>) -> (r: bool)
        requires
            old(self)@.inner is Some,
        ensures
            final(self)@ == old(self)@.with(
                old(self)@.area().apply_transform_session(delta, true).0,
            ),
            r == old(self)@.area().apply_transform_session(delta, true).1,
    {
        match &mut self.inner {
            Some(inner) => inner.pointer_update_drag(delta),
            None => false,
        }
    }

    pub fn pointer_end_drag(&mut self, delta: Vec2D<S>) -> (r: bool)
        requires
            old(self)@.inner is Some,
        ensures
            final(self)@ == old(self)@.with(old(self)@.area().pointer_end_drag(delta).0),
            r == old(self)@.area().pointer_end_drag(delta).1,
    {
        match &mut self.inner {
            Some(inner) => inner.pointer_end_drag(delta),
            None => false,
        }
    }

    pub fn pointer_edit_active(&self) -> (r: bool)
        requires
            self@.inner is Some,
        ensures
            r == (self@.area().transform_session is Some),
    {
        match &self.inner {
            Some(inner) => inner.pointer_edit_active(),
            None => false,
        }
    }

    pub fn pointer_hover_cursor(&self, pos: Vec2D<S>) -> (r: Option<PointerCursor>)
        requires
            self@.inner is Some,
        ensures
            r == self@.area().pointer_hover_cursor(pos),
    {
        match &self.inner {
            Some(inner) => inner.pointer_hover_cursor(pos),
            None => None,
        }
    }

    pub fn temporary_pointer_click(&mut self, pos: Vec2D<S>) -> (r: bool)
        requires
            old(self)@.inner is Some,
        ensures
            final(self)@ == old(self)@.with(old(self)@.area().temporary_pointer_click(pos).0),
            r == old(self)@.area().temporary_pointer_click(pos).1,
    {
        match &mut self.inner {
            Some(inner) => inner.temporary_pointer_click(pos),
            None => false,
        }
    }

    pub fn temporary_pointer_begin_drag(&mut self, pos: Vec2D<S>) -> (r: bool)
        requires
            old(self)@.inner is Some,
        ensures
            final(self)@ == old(self)@.with(old(self)@.area().temporary_pointer_begin_drag(pos).0),
            r == old(self)@.area().temporary_pointer_begin_drag(pos).1,
    {
        match &mut self.inner {
            Some(inner) => inner.temporary_pointer_begin_drag(pos),
            None => false,
        }
    }

    pub fn temporary_pointer_hover_cursor(&self, pos: Vec2D<S>) -> (r: Option<PointerCursor>)
        requires
            self@.inner is Some,
        ensures
            r == self@.area().temporary_pointer_hover_cursor(pos),
    {
        match &self.inner {
            Some(inner) => inner.temporary_pointer_hover_cursor(pos),
            None => None,
        }
    }

    pub fn take_text_edit_at(&mut self, pos: Vec2D<S>) -> (r: Option<(usize, D)>)
        requires
            old(self)@.inner is Some,
        ensures
            final(self)@ == old(self)@.with(old(self)@.area().take_text_edit_at(pos).0),
            r == old(self)@.area().take_text_edit_at(pos).1,
    {
        match &mut self.inner {
            Some(inner) => inner.take_text_edit_at(pos),
            None => None,
        }
    }

    pub fn restore_drawable(&mut self, index: usize, drawable: D)
        requires
            old(self)@.inner is Some,
        ensures
            final(self)@ == old(self)@.with(old(self)@.area().restore_drawable(index, drawable)),
    {
        if let Some(inner) = &mut self.inner {
            inner.restore_drawable(index, drawable);
        }
    }

    pub fn modify_drawable(&mut self, index: usize, before: D, after: D)
        requires
            old(self)@.inner is Some,
        ensures
            final(self)@ == old(self)@.with(
                old(self)@.area().modify_drawable(index, before, after),
            ),
    {
        if let Some(inner) = &mut self.inner {
            inner.modify_drawable(index, before, after);
        }
    }

    pub fn apply_style_change_to_target(&mut self, change: StyleChange<S>) -> (r: bool)
        requires
            old(self)@.inner is Some,
        ensures
            final(self)@ == old(self)@.with(
                old(self)@.area().apply_style_change_to_target(change).0,
            ),
            r == old(self)@.area().apply_style_change_to_target(change).1,
    {
        match &mut self.inner {
            Some(inner) => inner.apply_style_change_to_target(change),
            None => false,
        }
    }
}

} // verus!

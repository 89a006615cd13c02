//! The sketch board as a mathematical value, and what each message makes of it.
use vstd::prelude::*;

use crate::configuration::{Action, Configuration};
use crate::femtovg_area::state::{AreaState, PointerCursor};
use crate::femtovg_area::RendererState;
use crate::math::{Scalar, Vec2D};
use crate::sketch_board::events::{
    InputEvent, KeyEventMsg, MouseEventMsg, MouseEventType, SketchBoardInput, SketchBoardOutput,
    TextEventMsg, ToolbarEvent, CONTROL_MASK,
};
use crate::sketch_board::image::{bytes_of, PixelBuffer, RenderedImage};
use crate::sketch_board::keys::{spec_shortcut, PanDirection, Shortcut};
use crate::sketch_board::output::{render_steps, spec_needs_pixbuf, RenderStepView};
use crate::style::{Style, StyleChange};
use crate::tools::{slot_of, Drawable, Tool, ToolEvent, ToolUpdateResult, Tools};

verus! {

/// A pixel buffer with its bytes as a sequence.
#[verifier::ext_equal]
pub struct PixelBufferView {
    pub bytes: Seq<u8>,
    pub width: i32,
    pub height: i32,
    pub rowstride: i32,
}

impl View for PixelBuffer {
    type V = PixelBufferView;

    open spec fn view(&self) -> PixelBufferView {
        PixelBufferView {
            bytes: self.bytes@,
            width: self.width,
            height: self.height,
            rowstride: self.rowstride,
        }
    }
}

pub open spec fn pixbuf_view(pix_buf: Option<PixelBuffer>) -> Option<PixelBufferView> {
    match pix_buf {
        Some(pix_buf) => Some(pix_buf@),
        None => None,
    }
}

/// What the program has to do after a message.
#[verifier::ext_equal]
pub enum CommandView<S> {
    /// Send the board a message.
    Input(SketchBoardInput<S>),
    /// Tell the other parts of the window.
    Output(SketchBoardOutput),
    /// Do these things with a rendering.
    Render { pix_buf: Option<PixelBufferView>, steps: Seq<RenderStepView> },
    /// Show the inspector of the toolkit.
    InteractiveDebugging,
    Quit,
}

/// The board: the canvas, the tools with the active one among them, the style of
/// the next annotation, the file that was saved last, and whether a drag with the
/// temporary pointer goes on that took hold of nothing.
#[verifier::ext_equal]
pub struct BoardState<S, D, T> {
    pub renderer: RendererState<S, D>,
    pub active_tool: Tools,
    pub tools: Seq<T>,
    pub style: Style<S>,
    pub last_saved_filepath: Option<String>,
    pub temporary_pointer_noop_drag: bool,
}

/// The pixels that go with a rendering; none if no action uses them.
pub open spec fn rendered_pixels(image: RenderedImage, actions: Seq<Action>) -> Option<
    PixelBufferView,
> {
    if spec_needs_pixbuf(actions) {
        Some(
            PixelBufferView {
                bytes: bytes_of(image.contents()),
                width: image.width as i32,
                height: image.height as i32,
                rowstride: (4 * image.width) as i32,
            },
        )
    } else {
        None
    }
}

/// The number of the color that a digit stands for: the digits count from 1, and
/// 0 is the last one.
pub open spec fn color_of_digit(c: char) -> Option<u64> {
    if c == '0' {
        Some(9)
    } else if '1' <= c && c <= '9' {
        Some((c as u32 - 49) as u64)
    } else {
        None
    }
}

pub open spec fn spec_temporary_pointer_modifier<S>(event: MouseEventMsg<S>) -> bool {
    event.modifier.spec_contains(CONTROL_MASK)
}

/// The displacement of a pan.
pub open spec fn pan_vector<S: Scalar>(direction: PanDirection, step: S) -> Vec2D<S> {
    let zero = S::spec_from_int(0);
    match direction {
        PanDirection::Left => Vec2D { x: step.spec_negate(), y: zero },
        PanDirection::Right => Vec2D { x: step, y: zero },
        PanDirection::Up => Vec2D { x: zero, y: step.spec_negate() },
        PanDirection::Down => Vec2D { x: zero, y: step },
    }
}

/// A style with one property changed.
pub open spec fn restyled<S>(style: Style<S>, change: StyleChange<S>) -> Style<S> {
    match change {
        StyleChange::Color(color) => Style { color, ..style },
        StyleChange::Size(size) => Style { size, ..style },
        StyleChange::Fill(fill) => Style { fill, ..style },
        StyleChange::AnnotationSizeFactor(value) => Style {
            annotation_size_factor: value,
            ..style
        },
    }
}

/// `r` if the condition holds.
pub open spec fn result_if<D>(condition: bool, r: ToolUpdateResult<D>) -> Option<
    ToolUpdateResult<D>,
> {
    if condition {
        Some(r)
    } else {
        None
    }
}

impl<S: Scalar, D: Drawable<S>> RendererState<S, D> {
    pub open spec fn with_cursor(self, cursor: Option<PointerCursor>) -> Self {
        RendererState { cursor, ..self }
    }

    pub open spec fn with_queued_render(self) -> Self {
        RendererState { render_queued: true, ..self }
    }

    /// Copies the rendering to the clipboard if every change is copied.
    pub open spec fn auto_copied(self, config: Configuration<S>) -> Self {
        if config.auto_copy {
            self.request_render(seq![Action::SaveToClipboard])
        } else {
            self
        }
    }

    /// An event of the mouse, with its position in image coordinates. Drags tell
    /// how far they went; scrolling and hovering keep their coordinates.
    pub open spec fn to_image_coordinates(self, event: InputEvent<S>) -> InputEvent<S> {
        match event {
            InputEvent::Mouse(me) => match me.type_ {
                MouseEventType::Click | MouseEventType::Release | MouseEventType::BeginDrag =>
                InputEvent::Mouse(
                    MouseEventMsg { pos: self.abs_canvas_to_image_coordinates(me.pos), ..me },
                ),
                MouseEventType::EndDrag | MouseEventType::UpdateDrag => InputEvent::Mouse(
                    MouseEventMsg { pos: self.rel_canvas_to_image_coordinates(me.pos), ..me },
                ),
                _ => event,
            },
            _ => event,
        }
    }

    /// What the mouse does to the view: the secondary button starts the configured
    /// actions, the middle button drags the image, the wheel scales it.
    pub open spec fn mouse_event(self, me: MouseEventMsg<S>, config: Configuration<S>) -> Self {
        match me.type_ {
            MouseEventType::Click => if me.button is Secondary {
                self.request_render(config.actions_on_right_click@)
            } else {
                self
            },
            MouseEventType::EndDrag | MouseEventType::UpdateDrag => if me.button is Middle {
                let dragged = self.set_drag_offset(me.pos);
                let dragged = dragged.with(dragged.area().set_is_drag(true));
                let dragged = if me.type_ is EndDrag {
                    dragged.with(dragged.area().store_last_offset().set_is_drag(false))
                } else {
                    dragged
                };
                dragged.request_render(Seq::empty())
            } else {
                self
            },
            MouseEventType::Scroll => {
                let zero = S::spec_from_int(0);
                let scaled = if me.pos.y.spec_less_than(zero) {
                    self.set_zoom_scale(config.zoom_factor)
                } else if zero.spec_less_than(me.pos.y) {
                    self.set_zoom_scale(S::spec_from_int(1).spec_over(config.zoom_factor))
                } else {
                    self
                };
                scaled.request_render(Seq::empty())
            },
            MouseEventType::PointerPos => self.set_pointer_offset(me.pos),
            _ => self,
        }
    }
}

impl<S: Scalar, D: Drawable<S>, T: Tool<S, D>> BoardState<S, D, T> {
    /// There is an image, and there is one tool of each kind.
    pub open spec fn wf(self) -> bool {
        &&& self.renderer.inner is Some
        &&& self.tools.len() == slot_of(Tools::Highlight) + 1
    }

    pub open spec fn tool(self) -> T {
        self.tools[slot_of(self.active_tool) as int]
    }

    pub open spec fn with_tool(self, tool: T) -> Self {
        BoardState { tools: self.tools.update(slot_of(self.active_tool) as int, tool), ..self }
    }

    pub open spec fn with_renderer(self, renderer: RendererState<S, D>) -> Self {
        BoardState { renderer, ..self }
    }

    pub open spec fn area(self) -> AreaState<S, D> {
        self.renderer.area()
    }

    pub open spec fn with_area(self, area: AreaState<S, D>) -> Self {
        self.with_renderer(self.renderer.with(area))
    }

    pub open spec fn request_render(self, actions: Seq<Action>) -> Self {
        self.with_renderer(self.renderer.request_render(actions))
    }

    pub open spec fn with_cursor(self, cursor: Option<PointerCursor>) -> Self {
        self.with_renderer(self.renderer.with_cursor(cursor))
    }

    pub open spec fn active_tool_type(self) -> Tools {
        self.tool().spec_get_tool_type()
    }

    pub open spec fn active_text_editing(self) -> bool {
        self.active_tool_type() is Text && self.tool().spec_input_enabled()
    }

    /// The active tool has seen an event.
    pub open spec fn tool_event(self, event: ToolEvent<S>) -> (Self, ToolUpdateResult<D>) {
        let (tool, result) = self.tool().spec_handle_event(event);
        (self.with_tool(tool), result)
    }

    /// Another tool is active, and the canvas knows.
    pub open spec fn switched_to(self, tool: Tools) -> Self {
        let s = BoardState { active_tool: tool, ..self };
        s.with_area(s.area().set_active_tool(s.active_tool_type()))
    }

    pub open spec fn return_to_pointer_tool(self) -> Self {
        self.with_tool(self.tool().spec_set_im_context(false)).switched_to(Tools::Pointer)
    }

    /// Puts what a tool hands out on the canvas. What is left is at most a request
    /// to redraw.
    pub open spec fn apply_tool_update_result(
        self,
        result: ToolUpdateResult<D>,
        config: Configuration<S>,
    ) -> (Self, ToolUpdateResult<D>) {
        match result {
            ToolUpdateResult::Commit(drawable) => {
                let s = self.with_area(self.area().commit(drawable));
                (s.with_renderer(s.renderer.auto_copied(config)), ToolUpdateResult::Redraw)
            },
            ToolUpdateResult::Modify { index, before, after } => {
                let s = self.with_area(
                    self.area().modify_drawable(index, before, after),
                ).return_to_pointer_tool();
                (s.with_renderer(s.renderer.auto_copied(config)), ToolUpdateResult::Redraw)
            },
            ToolUpdateResult::Restore { index, drawable } => (
                self.with_area(
                    self.area().restore_drawable(index, drawable),
                ).return_to_pointer_tool(),
                ToolUpdateResult::Redraw,
            ),
            other => (self, other),
        }
    }

    /// Lets an active tool finish. True if there is something to redraw.
    pub open spec fn deactivate_active_tool(self, config: Configuration<S>) -> (Self, bool) {
        if self.tool().spec_active() {
            let (tool, result) = self.tool().spec_handle_deactivated();
            let (s, left) = self.with_tool(tool).apply_tool_update_result(result, config);
            (s, !left.leaves_canvas())
        } else {
            (self, false)
        }
    }

    pub open spec fn handle_action(self, actions: Seq<Action>, config: Configuration<S>) -> (
        Self,
        ToolUpdateResult<D>,
    ) {
        let (s, redraw) = self.deactivate_active_tool(config);
        (
            s.request_render(actions),
            if redraw {
                ToolUpdateResult::Redraw
            } else {
                ToolUpdateResult::Unmodified
            },
        )
    }

    /// A tool with work in progress undoes its own steps first.
    pub open spec fn handle_undo(self) -> (Self, ToolUpdateResult<D>) {
        if self.tool().spec_active() {
            let (tool, result) = self.tool().spec_handle_undo();
            (self.with_tool(tool), result)
        } else {
            let (area, done) = self.area().undo();
            if done {
                (self.with_area(area).with_cursor(None), ToolUpdateResult::Redraw)
            } else {
                (self.with_area(area), ToolUpdateResult::Unmodified)
            }
        }
    }

    pub open spec fn handle_redo(self) -> (Self, ToolUpdateResult<D>) {
        if self.tool().spec_active() {
            let (tool, result) = self.tool().spec_handle_redo();
            (self.with_tool(tool), result)
        } else {
            let (area, done) = self.area().redo();
            if done {
                (self.with_area(area).with_cursor(None), ToolUpdateResult::Redraw)
            } else {
                (self.with_area(area), ToolUpdateResult::Unmodified)
            }
        }
    }

    /// The tool finishes first, so that its object is removed with the others.
    pub open spec fn handle_reset(self, config: Configuration<S>) -> (Self, ToolUpdateResult<D>) {
        let (s, redraw) = self.deactivate_active_tool(config);
        let (area, done) = s.area().reset();
        if redraw || done {
            (s.with_area(area).with_cursor(None), ToolUpdateResult::Redraw)
        } else {
            (s.with_area(area), ToolUpdateResult::Unmodified)
        }
    }

    /// Sets the scale (0 makes the image fit) and centers the image.
    pub open spec fn handle_scale(self, scale: int) -> (Self, ToolUpdateResult<D>) {
        (
            self.with_renderer(
                self.renderer.reset_size(S::spec_from_int(scale as i64)).request_render(
                    Seq::empty(),
                ),
            ),
            ToolUpdateResult::Unmodified,
        )
    }

    /// The old tool hands out what it has, then the new one is set up: it gets the
    /// input method, a way to send messages, the style, and the activation.
    pub open spec fn select_tool(self, tool: Tools, config: Configuration<S>) -> (
        Self,
        ToolUpdateResult<D>,
    ) {
        let s = BoardState { temporary_pointer_noop_drag: false, ..self };
        let (s, result) = s.tool_event(ToolEvent::Deactivated);
        let s = s.with_tool(s.tool().spec_set_im_context(false));
        let (s, deactivate_result) = s.apply_tool_update_result(result, config);
        let s = s.switched_to(tool);
        let s = if tool is Pointer {
            s
        } else {
            s.with_cursor(None)
        };
        let s = s.with_tool(s.tool().spec_set_im_context(true).spec_set_sender());
        let s = s.tool_event(ToolEvent::StyleChanged(s.style)).0;
        let (s, activate_result) = s.tool_event(ToolEvent::Activated);
        (
            s,
            if activate_result is Unmodified {
                deactivate_result
            } else {
                activate_result
            },
        )
    }

    pub open spec fn apply_style_change_to_target(
        self,
        change: StyleChange<S>,
        tool_result: ToolUpdateResult<D>,
        apply_to_target: bool,
        config: Configuration<S>,
    ) -> (Self, ToolUpdateResult<D>) {
        if !apply_to_target {
            (self, tool_result)
        } else {
            let (area, changed) = self.area().apply_style_change_to_target(change);
            let s = self.with_area(area);
            if changed {
                (s.with_renderer(s.renderer.auto_copied(config)), ToolUpdateResult::Redraw)
            } else {
                (s, tool_result)
            }
        }
    }

    /// A new style goes to the tool; the object that was drawn or selected last
    /// takes it over unless the tool is drawing.
    pub open spec fn apply_toolbar_style_change(
        self,
        change: StyleChange<S>,
        config: Configuration<S>,
    ) -> (Self, ToolUpdateResult<D>) {
        let s = BoardState { style: restyled(self.style, change), ..self };
        let (t, tool_result) = s.tool_event(ToolEvent::StyleChanged(s.style));
        t.apply_style_change_to_target(
            change,
            tool_result,
            !self.tool().spec_has_drawable(),
            config,
        )
    }

    pub open spec fn handle_toolbar_event(self, event: ToolbarEvent<S>, config: Configuration<S>) -> (
        Self,
        ToolUpdateResult<D>,
    ) {
        match event {
            ToolbarEvent::ToolSelected(tool) => self.select_tool(tool, config),
            ToolbarEvent::ColorSelected(color) => self.apply_toolbar_style_change(
                StyleChange::Color(color),
                config,
            ),
            ToolbarEvent::SizeSelected(size) => self.apply_toolbar_style_change(
                StyleChange::Size(size),
                config,
            ),
            ToolbarEvent::SaveFile => self.handle_action(seq![Action::SaveToFile], config),
            ToolbarEvent::CopyClipboard => self.handle_action(
                seq![Action::SaveToClipboard],
                config,
            ),
            ToolbarEvent::Undo => self.handle_undo(),
            ToolbarEvent::Redo => self.handle_redo(),
            ToolbarEvent::Reset => self.handle_reset(config),
            ToolbarEvent::ToggleFill => self.apply_toolbar_style_change(
                StyleChange::Fill(!self.style.fill),
                config,
            ),
            ToolbarEvent::AnnotationSizeChanged(value) => self.apply_toolbar_style_change(
                StyleChange::AnnotationSizeFactor(value),
                config,
            ),
            ToolbarEvent::SaveFileAs => self.handle_action(seq![Action::SaveToFileAs], config),
            ToolbarEvent::Resize => self.handle_scale(0),
            ToolbarEvent::OriginalScale => self.handle_scale(1),
        }
    }

    /// Text from the input method goes to the text tool while that takes text.
    /// Otherwise its first character is a shortcut: for a tool, or else, if it is
    /// a digit, for a color.
    pub open spec fn handle_text_commit(self, event: TextEventMsg, config: Configuration<S>) -> Seq<
        CommandView<S>,
    > {
        if self.active_text_editing() {
            seq![CommandView::Input(SketchBoardInput::InputEvent(InputEvent::Text(event)))]
        } else {
            match event {
                TextEventMsg::Commit(text) => if text@.len() == 0 {
                    Seq::empty()
                } else if config.keybinds.spec_get_tool(text@[0]) is Some {
                    let tool = config.keybinds.spec_get_tool(text@[0])->0;
                    seq![
                        CommandView::Input(
                            SketchBoardInput::ToolbarEvent(ToolbarEvent::ToolSelected(tool)),
                        ),
                        CommandView::Output(SketchBoardOutput::ToolSwitchShortcut(tool)),
                    ]
                } else if color_of_digit(text@[0]) is Some {
                    seq![
                        CommandView::Output(
                            SketchBoardOutput::ColorSwitchShortcut(color_of_digit(text@[0])->0),
                        ),
                    ]
                } else {
                    Seq::empty()
                },
                _ => Seq::empty(),
            }
        }
    }

    /// A drag of an object goes on or ends.
    pub open spec fn handle_pointer_drag_event(
        self,
        event: MouseEventMsg<S>,
        config: Configuration<S>,
    ) -> (Self, Option<ToolUpdateResult<D>>) {
        match event.type_ {
            MouseEventType::UpdateDrag => {
                let (area, changed) = self.area().apply_transform_session(event.pos, true);
                (
                    self.with_area(area),
                    result_if(changed, ToolUpdateResult::RedrawAndStopPropagation),
                )
            },
            MouseEventType::EndDrag => {
                let (area, changed) = self.area().pointer_end_drag(event.pos);
                let s = self.with_area(area);
                if changed {
                    (
                        s.with_renderer(s.renderer.auto_copied(config)),
                        Some(ToolUpdateResult::RedrawAndStopPropagation),
                    )
                } else {
                    (s, Some(ToolUpdateResult::StopPropagation))
                }
            },
            _ => (self, None),
        }
    }

    /// While a drawing tool is active, the mouse with Control held works as the
    /// pointer does, but selects nothing.
    pub open spec fn temporary_pointer_event(
        self,
        event: MouseEventMsg<S>,
        config: Configuration<S>,
    ) -> (Self, Option<ToolUpdateResult<D>>) {
        let hover_pos = self.renderer.abs_canvas_to_image_coordinates(event.pos);
        let held = spec_temporary_pointer_modifier(event);
        if self.active_text_editing() {
            (
                if event.type_ is PointerPos {
                    self.with_cursor(None)
                } else {
                    self
                },
                None,
            )
        } else if event.type_ is PointerPos {
            (
                self.with_cursor(
                    if held {
                        self.area().temporary_pointer_hover_cursor(hover_pos)
                    } else {
                        None
                    },
                ),
                None,
            )
        } else if event.button !is Primary {
            (self, None)
        } else if self.temporary_pointer_noop_drag {
            (
                BoardState { temporary_pointer_noop_drag: event.type_ !is EndDrag, ..self },
                result_if(
                    event.type_ is UpdateDrag || event.type_ is EndDrag,
                    ToolUpdateResult::StopPropagation,
                ),
            )
        } else if self.area().transform_session is Some {
            self.handle_pointer_drag_event(event, config)
        } else if !held {
            (self, None)
        } else {
            match event.type_ {
                MouseEventType::Click => {
                    let (area, hit) = self.area().temporary_pointer_click(event.pos);
                    (
                        self.with_area(area),
                        Some(
                            if hit {
                                ToolUpdateResult::RedrawAndStopPropagation
                            } else {
                                ToolUpdateResult::StopPropagation
                            },
                        ),
                    )
                },
                MouseEventType::BeginDrag => {
                    let (area, hit) = self.area().temporary_pointer_begin_drag(event.pos);
                    let s = self.with_area(area);
                    if hit {
                        (s, Some(ToolUpdateResult::RedrawAndStopPropagation))
                    } else {
                        (
                            BoardState { temporary_pointer_noop_drag: true, ..s },
                            Some(ToolUpdateResult::StopPropagation),
                        )
                    }
                },
                _ => (self, None),
            }
        }
    }

    /// A double click on a text opens it in the text tool. A tool that does not
    /// take it gives it back.
    pub open spec fn text_edit_event(self, pos: Vec2D<S>) -> (Self, Option<ToolUpdateResult<D>>) {
        let (area, taken) = self.area().take_text_edit_at(pos);
        let s = self.with_area(area);
        match taken {
            None => (s, None),
            Some((index, drawable)) => {
                let s = s.with_tool(s.tool().spec_set_im_context(false));
                let s = s.switched_to(Tools::Text);
                let tool = s.tool().spec_set_im_context(true).spec_set_sender();
                let (tool, started) = tool.spec_start_existing_text_edit(drawable, index);
                let s = s.with_tool(tool);
                (
                    match started {
                        Ok(_) => s,
                        Err(drawable) => s.with_area(
                            s.area().restore_drawable(index, drawable),
                        ).return_to_pointer_tool(),
                    },
                    Some(ToolUpdateResult::RedrawAndStopPropagation),
                )
            },
        }
    }

    /// The pointer selects, moves and resizes objects.
    pub open spec fn pointer_event(self, event: MouseEventMsg<S>, config: Configuration<S>) -> (
        Self,
        Option<ToolUpdateResult<D>>,
    ) {
        let hover_pos = self.renderer.abs_canvas_to_image_coordinates(event.pos);
        if event.type_ is PointerPos {
            (self.with_cursor(self.area().pointer_hover_cursor(hover_pos)), None)
        } else if event.button !is Primary {
            (self, None)
        } else {
            match event.type_ {
                MouseEventType::Click => if event.n_pressed == 2 {
                    self.text_edit_event(event.pos)
                } else {
                    let (area, changed) = self.area().pointer_click(event.pos);
                    (
                        self.with_area(area),
                        result_if(changed, ToolUpdateResult::RedrawAndStopPropagation),
                    )
                },
                MouseEventType::BeginDrag => {
                    let (area, changed) = self.area().pointer_begin_drag(event.pos);
                    (
                        self.with_area(area),
                        result_if(changed, ToolUpdateResult::RedrawAndStopPropagation),
                    )
                },
                MouseEventType::UpdateDrag | MouseEventType::EndDrag => {
                    self.handle_pointer_drag_event(event, config)
                },
                _ => (self, None),
            }
        }
    }

    /// What the mouse does to objects on the canvas. None if the event goes on to
    /// the active tool.
    pub open spec fn handle_pointer_object_event(
        self,
        event: InputEvent<S>,
        config: Configuration<S>,
    ) -> (Self, Option<ToolUpdateResult<D>>) {
        match event {
            InputEvent::Mouse(me) => if self.active_tool_type() is Pointer {
                self.pointer_event(me, config)
            } else {
                self.temporary_pointer_event(me, config)
            },
            _ => (self, None),
        }
    }

    /// What a shortcut does. `tool_result` is what the active tool made of the key.
    pub open spec fn handle_shortcut(
        self,
        shortcut: Shortcut,
        tool_result: ToolUpdateResult<D>,
        config: Configuration<S>,
    ) -> (Self, ToolUpdateResult<D>, Seq<CommandView<S>>) {
        let unmodified = ToolUpdateResult::<D>::Unmodified;
        let none = Seq::<CommandView<S>>::empty();
        match shortcut {
            Shortcut::Undo => (self.handle_undo().0, self.handle_undo().1, none),
            Shortcut::Redo => (self.handle_redo().0, self.handle_redo().1, none),
            Shortcut::ToggleToolbars => (
                self,
                unmodified,
                seq![CommandView::Output(SketchBoardOutput::ToggleToolbarsDisplay)],
            ),
            Shortcut::SaveFile => (
                self.request_render(seq![Action::SaveToFile]),
                unmodified,
                none,
            ),
            Shortcut::SaveFileAs => (
                self.request_render(seq![Action::SaveToFileAs]),
                unmodified,
                none,
            ),
            Shortcut::CopyAndExit => (
                self.request_render(seq![Action::SaveToClipboard, Action::Exit]),
                unmodified,
                none,
            ),
            Shortcut::CopyFilepath => (
                self.request_render(seq![Action::CopyFilepathToClipboard]),
                unmodified,
                none,
            ),
            Shortcut::Inspector => (self, unmodified, seq![CommandView::InteractiveDebugging]),
            Shortcut::Pan(direction) => {
                let panned = match direction {
                    Some(direction) => self.renderer.set_drag_offset(
                        pan_vector(direction, config.pan_step_size),
                    ),
                    None => self.renderer,
                };
                let panned = panned.with(panned.area().store_last_offset());
                (
                    self.with_renderer(panned.request_render(Seq::empty())),
                    unmodified,
                    none,
                )
            },
            Shortcut::Reset => (self.handle_reset(config).0, self.handle_reset(config).1, none),
            Shortcut::Escape => (
                if tool_result is Unmodified {
                    self.request_render(config.actions_on_escape@)
                } else {
                    self
                },
                tool_result,
                none,
            ),
            Shortcut::Enter => (
                if tool_result is Unmodified {
                    self.request_render(config.actions_on_enter@)
                } else {
                    self
                },
                tool_result,
                none,
            ),
            Shortcut::Nothing => (self, tool_result, none),
        }
    }

    /// A key goes to the active tool first, and is a shortcut unless the tool
    /// keeps it.
    pub open spec fn handle_key_event(self, ke: KeyEventMsg, config: Configuration<S>) -> (
        Self,
        ToolUpdateResult<D>,
        Seq<CommandView<S>>,
    ) {
        let (s, result) = self.tool_event(ToolEvent::Input(InputEvent::Key(ke)));
        if result.stops() {
            (s, result, Seq::empty())
        } else {
            s.handle_shortcut(spec_shortcut(ke), result, config)
        }
    }

    /// Redraws if that is what a result asks for.
    pub open spec fn redrawn(self, result: ToolUpdateResult<D>) -> Self {
        if result.leaves_canvas() {
            self
        } else {
            self.with_renderer(self.renderer.with_queued_render())
        }
    }

    /// Puts what a tool hands out on the canvas, and redraws if needed.
    pub open spec fn concluded(self, result: ToolUpdateResult<D>, config: Configuration<S>) -> Self {
        let (s, left) = self.apply_tool_update_result(result, config);
        s.redrawn(left)
    }

    /// An event that is not a key press: the objects see it first, then the active
    /// tool, then the view.
    pub open spec fn handle_input_event(self, event: InputEvent<S>, config: Configuration<S>) -> Self {
        let event = self.renderer.to_image_coordinates(event);
        let (s, object_result) = self.handle_pointer_object_event(event, config);
        match object_result {
            Some(result) => s.concluded(result, config),
            None => {
                let (s, result) = s.tool_event(ToolEvent::Input(event));
                let s = match event {
                    InputEvent::Mouse(me) if !result.stops() => s.with_renderer(
                        s.renderer.mouse_event(me, config),
                    ),
                    _ => s,
                };
                s.concluded(result, config)
            },
        }
    }

    /// What a message makes of the board, and what the program has to do.
    pub open spec fn update(self, msg: SketchBoardInput<S>, config: Configuration<S>) -> (
        Self,
        Seq<CommandView<S>>,
    ) {
        match msg {
            SketchBoardInput::InputEvent(InputEvent::Key(ke)) => {
                let (s, result, commands) = self.handle_key_event(ke, config);
                (s.concluded(result, config), commands)
            },
            SketchBoardInput::InputEvent(event) => (
                self.handle_input_event(event, config),
                Seq::empty(),
            ),
            SketchBoardInput::ToolbarEvent(event) => {
                let (s, result) = self.handle_toolbar_event(event, config);
                (s.concluded(result, config), Seq::empty())
            },
            SketchBoardInput::RenderResult(image, actions) => {
                let pix_buf = rendered_pixels(image, actions@);
                (
                    self,
                    seq![
                        CommandView::Render {
                            pix_buf,
                            steps: render_steps(pix_buf is Some, actions@, config),
                        },
                    ],
                )
            },
            SketchBoardInput::RenderResultFollowup(pix_buf, actions, filename) => (
                if filename is Some {
                    BoardState { last_saved_filepath: filename, ..self }
                } else {
                    self
                },
                seq![
                    CommandView::Render {
                        pix_buf: pixbuf_view(pix_buf),
                        steps: render_steps(pix_buf is Some, actions@, config),
                    },
                ],
            ),
            SketchBoardInput::CommitEvent(text) => (self, self.handle_text_commit(text, config)),
            SketchBoardInput::Refresh => (
                self.with_renderer(self.renderer.with_queued_render()),
                Seq::empty(),
            ),
            SketchBoardInput::Exit => (self, seq![CommandView::Quit]),
            SketchBoardInput::ScaleFactorChanged => (
                self.with_renderer(self.renderer.resize(0, 0).with_queued_render()),
                Seq::empty(),
            ),
            SketchBoardInput::Output(output) => (self, seq![CommandView::Output(output)]),
        }
    }
}

} // verus!

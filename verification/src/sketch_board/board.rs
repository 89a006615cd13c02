//! The sketch board: receives messages, passes them on to tools and objects, and
//! tells the program what to do.
use vstd::prelude::*;

use crate::configuration::{Action, Configuration};
use crate::femtovg_area::state::AreaState;
use crate::femtovg_area::{FemtoVGArea, RendererState};
use crate::math::{Scalar, Vec2D};
use crate::sketch_board::events::{
    InputEvent, KeyEventMsg, MouseButton, MouseEventMsg, MouseEventType, SketchBoardInput,
    SketchBoardOutput, TextEventMsg, ToolbarEvent, CONTROL_MASK,
};
use crate::sketch_board::image::{image_to_pixbuf, PixelBuffer, RenderedImage};
use crate::sketch_board::keys::{shortcut, PanDirection, Shortcut};
use crate::sketch_board::output::{
    needs_pixbuf, plan_render_steps, render_steps, spec_needs_pixbuf, step_views, RenderStep,
};
use crate::sketch_board::state::{
    color_of_digit, pan_vector, pixbuf_view, rendered_pixels, restyled, result_if,
    spec_temporary_pointer_modifier, BoardState, CommandView,
};
use crate::style::{Style, StyleChange};
use crate::tools::{slot_of, Drawable, Tool, ToolEvent, ToolUpdateResult, Tools};

verus! {

/// What the program has to do after a message.
pub enum Command<S> {
    /// Send the board a message.
    Input(SketchBoardInput<S>),
    /// Tell the other parts of the window.
    Output(SketchBoardOutput),
    /// Do these things with a rendering, in order.
    Render { pix_buf: Option<PixelBuffer>, steps: Vec<RenderStep> },
    /// Show the inspector of the toolkit.
    InteractiveDebugging,
    Quit,
}

impl<S> View for Command<S> {
    type V = CommandView<S>;

    open spec fn view(&self) -> CommandView<S> {
        match *self {
            Command::Input(input) => CommandView::Input(input),
            Command::Output(output) => CommandView::Output(output),
            Command::Render { pix_buf, steps } => CommandView::Render {
                pix_buf: pixbuf_view(pix_buf),
                steps: step_views(steps@),
            },
            Command::InteractiveDebugging => CommandView::InteractiveDebugging,
            Command::Quit => CommandView::Quit,
        }
    }
}

pub open spec fn command_views<S>(commands: Seq<Command<S>>) -> Seq<CommandView<S>> {
    commands.map_values(|command: Command<S>| command@)
}

fn no_commands<S>() -> (r: Vec<Command<S>>)
    ensures
        command_views(r@) == Seq::<CommandView<S>>::empty(),
{
    let r: Vec<Command<S>> = Vec::new();
    assert(command_views(r@) =~= Seq::empty());
    r
}

fn one_command<S>(command: Command<S>) -> (r: Vec<Command<S>>)
    ensures
        command_views(r@) == seq![command@],
{
    let mut r: Vec<Command<S>> = Vec::new();
    r.push(command);
    assert(command_views(r@) =~= seq![command@]);
    r
}

/// The sketch board.
pub struct SketchBoard<S, D, T> {
    pub renderer: FemtoVGArea<S, D>,
    pub active_tool: Tools,
    /// One tool of each kind, in the order of `slot_of`.
    pub tools: Vec<T>,
    pub style: Style<S>,
    pub last_saved_filepath: Option<String>,
    pub temporary_pointer_noop_drag: bool,
}

impl<S, D, T> View for SketchBoard<S, D, T> {
    type V = BoardState<S, D, T>;

    open spec fn view(&self) -> BoardState<S, D, T> {
        BoardState {
            renderer: self.renderer@,
            active_tool: self.active_tool,
            tools: self.tools@,
            style: self.style,
            last_saved_filepath: self.last_saved_filepath,
            temporary_pointer_noop_drag: self.temporary_pointer_noop_drag,
        }
    }
}

/// The style with one property changed.
pub fn restyle<S: Scalar>(style: Style<S>, change: StyleChange<S>) -> (r: Style<S>)
    ensures
        r == restyled(style, change),
{
    match change {
        StyleChange::Color(color) => Style { color, ..style },
        StyleChange::Size(size) => Style { size, ..style },
        StyleChange::Fill(fill) => Style { fill, ..style },
        StyleChange::AnnotationSizeFactor(value) => Style {
            annotation_size_factor: value,
            ..style
        },
    }
}

/// Tells whether the mouse works as a pointer while another tool is active.
/// Other modifiers and buttons may be held as well.
pub fn temporary_pointer_modifier<S>(event: &MouseEventMsg<S>) -> (r: bool)
    ensures
        r == spec_temporary_pointer_modifier(*event),
{
    event.modifier.contains(CONTROL_MASK)
}

/// The number of the color that a digit stands for.
fn digit_color(c: char) -> (r: Option<u64>)
    ensures
        r == color_of_digit(c),
{
    if c == '0' {
        Some(9)
    } else if '1' <= c && c <= '9' {
        Some((c as u32 - 49) as u64)
    } else {
        None
    }
}

fn pan_displacement<S: Scalar>(direction: PanDirection, step: S) -> (r: Vec2D<S>)
    ensures
        r == pan_vector(direction, step),
{
    let zero = S::from_int(0);
    match direction {
        PanDirection::Left => Vec2D::new(step.negate(), zero),
        PanDirection::Right => Vec2D::new(step, zero),
        PanDirection::Up => Vec2D::new(zero, step.negate()),
        PanDirection::Down => Vec2D::new(zero, step),
    }
}

/// `r` if the condition holds.
fn some_if<D>(condition: bool, r: ToolUpdateResult<D>) -> (o: Option<ToolUpdateResult<D>>)
    ensures
        o == result_if(condition, r),
{
    if condition {
        Some(r)
    } else {
        None
    }
}

impl<S: Scalar> InputEvent<S> {
    /// Turns the position of an event into image coordinates.
    pub fn handle_event_mouse_input<D: Drawable<S>>(&mut self, renderer: &FemtoVGArea<S, D>)
        requires
            renderer@.inner is Some,
        ensures
            *final(self) == renderer@.to_image_coordinates(*old(self)),
    {
        if let InputEvent::Mouse(me) = self {
            match me.type_ {
                MouseEventType::Click | MouseEventType::Release | MouseEventType::BeginDrag => {
                    me.pos = renderer.abs_canvas_to_image_coordinates(me.pos);
                },
                MouseEventType::EndDrag | MouseEventType::UpdateDrag => {
                    me.pos = renderer.rel_canvas_to_image_coordinates(me.pos);
                },
                _ => {},
            }
        }
    }
}

impl<S: Scalar> MouseEventMsg<S> {
    /// What the mouse does to the view.
    pub fn handle_mouse_event<D: Drawable<S>>(
        &self,
        renderer: &mut FemtoVGArea<S, D>,
        config: &Configuration<S>,
    )
        requires
            old(renderer)@.inner is Some,
        ensures
            final(renderer)@ == old(renderer)@.mouse_event(*self, *config),
    {
        match self.type_ {
            MouseEventType::Click => {
                if self.button == MouseButton::Secondary {
                    renderer.request_render(config.actions_on_right_click.as_slice());
                }
            },
            MouseEventType::EndDrag | MouseEventType::UpdateDrag => {
                if self.button == MouseButton::Middle {
                    renderer.set_drag_offset(self.pos);
                    renderer.set_is_drag(true);
                    if self.type_ == MouseEventType::EndDrag {
                        renderer.store_last_offset();
                        renderer.set_is_drag(false);
                    }
                    renderer.request_render(&[]);
                }
            },
            MouseEventType::Scroll => {
                let zero = S::from_int(0);
                if self.pos.y.less_than(zero) {
                    renderer.set_zoom_scale(config.zoom_factor);
                } else if zero.less_than(self.pos.y) {
                    renderer.set_zoom_scale(S::from_int(1).over(config.zoom_factor));
                }
                renderer.request_render(&[]);
            },
            MouseEventType::PointerPos => {
                renderer.set_pointer_offset(self.pos);
            },
            _ => {},
        }
    }
}

impl<S: Scalar, D: Drawable<S>, T: Tool<S, D>> SketchBoard<S, D, T> {
    /// A board with an image. The active tool is connected to the input method.
    pub fn init(
        device_scale: i32,
        image_width: i32,
        image_height: i32,
        tools: Vec<T>,
        style: Style<S>,
        config: &Configuration<S>,
    ) -> (r: Self)
        requires
            tools@.len() == slot_of(Tools::Highlight) + 1,
        ensures
            r@.wf(),
            r@ == ({
                let start = BoardState::<S, D, T> {
                    renderer: RendererState {
                        inner: None,
                        request_render: None,
                        canvas_width: 0,
                        canvas_height: 0,
                        device_scale,
                        render_queued: true,
                        cursor: None,
                    },
                    active_tool: config.initial_tool,
                    tools: tools@,
                    style,
                    last_saved_filepath: None,
                    temporary_pointer_noop_drag: false,
                };
                let opened = start.with_area(
                    AreaState::fresh(
                        start.active_tool_type(),
                        image_width,
                        image_height,
                        config.input_scale,
                    ),
                );
                opened.with_tool(opened.tool().spec_set_im_context(true))
            }),
            r@.area().drawables.len() == 0,
            r@.area().history.len() == 0,
            r@.area().redo_history.len() == 0,
            r@.area().image_width == image_width,
            r@.area().image_height == image_height,
            r@.area().active_tool == tools@[slot_of(
                config.initial_tool,
            ) as int].spec_get_tool_type(),
            config.input_scale matches Some(scale) ==> r@.area().zoom_scale == scale,
            config.input_scale is None ==> r@.area().zoom_scale == S::spec_from_int(0),
            r@.active_tool == config.initial_tool,
            r@.style == style,
    {
        let mut board = SketchBoard {
            renderer: FemtoVGArea::new(device_scale),
            active_tool: config.initial_tool,
            tools,
            style,
            last_saved_filepath: None,
            temporary_pointer_noop_drag: false,
        };
        let tool_type = board.active_tool_type();
        board.renderer.init(tool_type, image_width, image_height, config.input_scale);
        board.set_im_context(true);
        board
    }

    /// The type of the active tool.
    pub fn active_tool_type(&self) -> (r: Tools)
        requires
            self@.tools.len() == slot_of(Tools::Highlight) + 1,
        ensures
            r == self@.active_tool_type(),
    {
        self.tools[self.active_tool.slot()].get_tool_type()
    }

    fn active_text_editing(&self) -> (r: bool)
        requires
            self@.wf(),
        ensures
            r == self@.active_text_editing(),
    {
        self.active_tool_type() == Tools::Text
            && self.tools[self.active_tool.slot()].input_enabled()
    }

    fn set_im_context(&mut self, attached: bool)
        requires
            old(self)@.tools.len() == slot_of(Tools::Highlight) + 1,
        ensures
            final(self)@ == old(self)@.with_tool(old(self)@.tool().spec_set_im_context(attached)),
    {
        let slot: usize = self.active_tool.slot();
        self.tools[slot].set_im_context(attached);
    }

    fn set_sender(&mut self)
        requires
            old(self)@.wf(),
        ensures
            final(self)@ == old(self)@.with_tool(old(self)@.tool().spec_set_sender()),
    {
        let slot: usize = self.active_tool.slot();
        self.tools[slot].set_sender();
    }

    fn tool_event(&mut self, event: &ToolEvent<S>) -> (r: ToolUpdateResult<D>)
        requires
            old(self)@.wf(),
        ensures
            (final(self)@, r) == old(self)@.tool_event(*event),
            final(self)@.wf(),
    {
        let slot: usize = self.active_tool.slot();
        self.tools[slot].handle_event(event)
    }

    fn switch_to(&mut self, tool: Tools)
        requires
            old(self)@.wf(),
        ensures
            final(self)@ == old(self)@.switched_to(tool),
            final(self)@.wf(),
    {
        self.active_tool = tool;
        let tool_type = self.active_tool_type();
        self.renderer.set_active_tool(tool_type);
    }

    fn refresh_screen(&mut self)
        ensures
            final(self)@ == old(self)@.with_renderer(old(self)@.renderer.with_queued_render()),
    {
        self.renderer.queue_render();
    }

    fn auto_copy(&mut self, config: &Configuration<S>)
        ensures
            final(self)@ == old(self)@.with_renderer(old(self)@.renderer.auto_copied(*config)),
    {
        if config.auto_copy {
            self.renderer.request_render(&[Action::SaveToClipboard]);
            assert([Action::SaveToClipboard]@ =~= seq![Action::SaveToClipboard]);
        }
    }

    fn return_to_pointer_tool(&mut self)
        requires
            old(self)@.wf(),
        ensures
            final(self)@ == old(self)@.return_to_pointer_tool(),
            final(self)@.wf(),
    {
        self.set_im_context(false);
        self.switch_to(Tools::Pointer);
    }

    fn apply_tool_update_result(
        &mut self,
        result: ToolUpdateResult<D>,
        config: &Configuration<S>,
    ) -> (r: ToolUpdateResult<D>)
        requires
            old(self)@.wf(),
        ensures
            (final(self)@, r) == old(self)@.apply_tool_update_result(result, *config),
            final(self)@.wf(),
            !r.delivers(),
    {
        match result {
            ToolUpdateResult::Commit(drawable) => {
                self.renderer.commit(drawable);
                self.auto_copy(config);
                ToolUpdateResult::Redraw
            },
            ToolUpdateResult::Modify { index, before, after } => {
                self.renderer.modify_drawable(index, before, after);
                self.return_to_pointer_tool();
                self.auto_copy(config);
                ToolUpdateResult::Redraw
            },
            ToolUpdateResult::Restore { index, drawable } => {
                self.renderer.restore_drawable(index, drawable);
                self.return_to_pointer_tool();
                ToolUpdateResult::Redraw
            },
            other => other,
        }
    }

    fn deactivate_active_tool(&mut self, config: &Configuration<S>) -> (r: bool)
        requires
            old(self)@.wf(),
        ensures
            (final(self)@, r) == old(self)@.deactivate_active_tool(*config),
            final(self)@.wf(),
    {
        let slot: usize = self.active_tool.slot();
        if !self.tools[slot].active() {
            return false;
        }
        let result = self.tools[slot].handle_deactivated();
        match self.apply_tool_update_result(result, config) {
            ToolUpdateResult::Unmodified | ToolUpdateResult::StopPropagation => false,
            _ => true,
        }
    }

    fn handle_action(&mut self, actions: &[Action], config: &Configuration<S>) -> (r:
        ToolUpdateResult<D>)
        requires
            old(self)@.wf(),
        ensures
            (final(self)@, r) == old(self)@.handle_action(actions@, *config),
            final(self)@.wf(),
    {
        let redraw = self.deactivate_active_tool(config);
        self.renderer.request_render(actions);
        if redraw {
            ToolUpdateResult::Redraw
        } else {
            ToolUpdateResult::Unmodified
        }
    }

    fn handle_undo(&mut self) -> (r: ToolUpdateResult<D>)
        requires
            old(self)@.wf(),
        ensures
            (final(self)@, r) == old(self)@.handle_undo(),
            final(self)@.wf(),
    {
        let slot: usize = self.active_tool.slot();
        if self.tools[slot].active() {
            self.tools[slot].handle_undo()
        } else if self.renderer.undo() {
            self.renderer.set_cursor(None);
            ToolUpdateResult::Redraw
        } else {
            ToolUpdateResult::Unmodified
        }
    }

    fn handle_redo(&mut self) -> (r: ToolUpdateResult<D>)
        requires
            old(self)@.wf(),
        ensures
            (final(self)@, r) == old(self)@.handle_redo(),
            final(self)@.wf(),
    {
        let slot: usize = self.active_tool.slot();
        if self.tools[slot].active() {
            self.tools[slot].handle_redo()
        } else if self.renderer.redo() {
            self.renderer.set_cursor(None);
            ToolUpdateResult::Redraw
        } else {
            ToolUpdateResult::Unmodified
        }
    }

    fn handle_reset(&mut self, config: &Configuration<S>) -> (r: ToolUpdateResult<D>)
        requires
            old(self)@.wf(),
        ensures
            (final(self)@, r) == old(self)@.handle_reset(*config),
            final(self)@.wf(),
    {
        let redraw = self.deactivate_active_tool(config);
        let done = self.renderer.reset();
        if redraw || done {
            self.renderer.set_cursor(None);
            ToolUpdateResult::Redraw
        } else {
            ToolUpdateResult::Unmodified
        }
    }

    /// Makes the image fit the window.
    fn handle_resize(&mut self) -> (r: ToolUpdateResult<D>)
        requires
            old(self)@.wf(),
        ensures
            (final(self)@, r) == old(self)@.handle_scale(0),
            final(self)@.wf(),
    {
        self.renderer.reset_size(S::from_int(0));
        self.renderer.request_render(&[]);
        ToolUpdateResult::Unmodified
    }

    /// Shows one pixel of the image as one pixel of the screen.
    fn handle_original_scale(&mut self) -> (r: ToolUpdateResult<D>)
        requires
            old(self)@.wf(),
        ensures
            (final(self)@, r) == old(self)@.handle_scale(1),
            final(self)@.wf(),
    {
        self.renderer.reset_size(S::from_int(1));
        self.renderer.request_render(&[]);
        ToolUpdateResult::Unmodified
    }

    fn select_tool(&mut self, tool: Tools, config: &Configuration<S>) -> (r: ToolUpdateResult<D>)
        requires
            old(self)@.wf(),
        ensures
            (final(self)@, r) == old(self)@.select_tool(tool, *config),
            final(self)@.wf(),
    {
        self.temporary_pointer_noop_drag = false;
        let result = self.tool_event(&ToolEvent::Deactivated);
        self.set_im_context(false);
        let deactivate_result = self.apply_tool_update_result(result, config);

        self.switch_to(tool);
        if tool != Tools::Pointer {
            self.renderer.set_cursor(None);
        }
        let ghost switched = self@;
        self.set_im_context(true);
        self.set_sender();
        assert(self@ =~= switched.with_tool(
            switched.tool().spec_set_im_context(true).spec_set_sender(),
        ));

        let style = self.style;
        self.tool_event(&ToolEvent::StyleChanged(style));
        let activate_result = self.tool_event(&ToolEvent::Activated);
        match activate_result {
            ToolUpdateResult::Unmodified => deactivate_result,
            _ => activate_result,
        }
    }

    fn apply_style_change_to_target(
        &mut self,
        change: StyleChange<S>,
        tool_result: ToolUpdateResult<D>,
        apply_to_target: bool,
        config: &Configuration<S>,
    ) -> (r: ToolUpdateResult<D>)
        requires
            old(self)@.wf(),
        ensures
            (final(self)@, r) == old(self)@.apply_style_change_to_target(
                change,
                tool_result,
                apply_to_target,
                *config,
            ),
            final(self)@.wf(),
    {
        if apply_to_target && self.renderer.apply_style_change_to_target(change) {
            self.auto_copy(config);
            ToolUpdateResult::Redraw
        } else {
            tool_result
        }
    }

    fn apply_toolbar_style_change(
        &mut self,
        change: StyleChange<S>,
        config: &Configuration<S>,
    ) -> (r: ToolUpdateResult<D>)
        requires
            old(self)@.wf(),
        ensures
            (final(self)@, r) == old(self)@.apply_toolbar_style_change(change, *config),
            final(self)@.wf(),
    {
        self.style = restyle(self.style, change);
        let apply_to_target = !self.tools[self.active_tool.slot()].has_drawable();
        let style = self.style;
        let tool_result = self.tool_event(&ToolEvent::StyleChanged(style));
        self.apply_style_change_to_target(change, tool_result, apply_to_target, config)
    }

    fn handle_toolbar_event(&mut self, event: ToolbarEvent<S>, config: &Configuration<S>) -> (r:
        ToolUpdateResult<D>)
        requires
            old(self)@.wf(),
        ensures
            (final(self)@, r) == old(self)@.handle_toolbar_event(event, *config),
            final(self)@.wf(),
    {
        assert([Action::SaveToFile]@ =~= seq![Action::SaveToFile]);
        assert([Action::SaveToFileAs]@ =~= seq![Action::SaveToFileAs]);
        assert([Action::SaveToClipboard]@ =~= seq![Action::SaveToClipboard]);
        match event {
            ToolbarEvent::ToolSelected(tool) => self.select_tool(tool, config),
            ToolbarEvent::ColorSelected(color) => self.apply_toolbar_style_change(
                StyleChange::Color(color),
                config,
            ),
            ToolbarEvent::SizeSelected(size) => self.apply_toolbar_style_change(
                StyleChange::Size(size),
                config,
            ),
            ToolbarEvent::SaveFile => self.handle_action(&[Action::SaveToFile], config),
            ToolbarEvent::CopyClipboard => self.handle_action(&[Action::SaveToClipboard], config),
            ToolbarEvent::Undo => self.handle_undo(),
            ToolbarEvent::Redo => self.handle_redo(),
            ToolbarEvent::Reset => self.handle_reset(config),
            ToolbarEvent::ToggleFill => {
                let fill = !self.style.fill;
                self.apply_toolbar_style_change(StyleChange::Fill(fill), config)
            },
            ToolbarEvent::AnnotationSizeChanged(value) => self.apply_toolbar_style_change(
                StyleChange::AnnotationSizeFactor(value),
                config,
            ),
            ToolbarEvent::SaveFileAs => self.handle_action(&[Action::SaveToFileAs], config),
            ToolbarEvent::Resize => self.handle_resize(),
            ToolbarEvent::OriginalScale => self.handle_original_scale(),
        }
    }

    fn handle_text_commit(&self, event: TextEventMsg, config: &Configuration<S>) -> (r: Vec<
        Command<S>,
    >)
        requires
            self@.wf(),
        ensures
            command_views(r@) == self@.handle_text_commit(event, *config),
    {
        if self.active_text_editing() {
            return one_command(Command::Input(SketchBoardInput::new_text_event(event)));
        }
        let TextEventMsg::Commit(text) = event else {
            return no_commands();
        };
        if text.as_str().unicode_len() == 0 {
            return no_commands();
        }
        let first = text.as_str().get_char(0);
        if let Some(tool) = config.keybinds.get_tool(first) {
            let mut commands = one_command(
                Command::Input(SketchBoardInput::ToolbarEvent(ToolbarEvent::ToolSelected(tool))),
            );
            let ghost first_command = commands@;
            commands.push(Command::Output(SketchBoardOutput::ToolSwitchShortcut(tool)));
            assert(command_views(commands@) =~= command_views(first_command).push(
                CommandView::Output(SketchBoardOutput::ToolSwitchShortcut(tool)),
            ));
            assert(command_views(commands@) =~= self@.handle_text_commit(event, *config));
            return commands;
        }
        match digit_color(first) {
            Some(index) => one_command(
                Command::Output(SketchBoardOutput::ColorSwitchShortcut(index)),
            ),
            None => no_commands(),
        }
    }

    fn handle_pointer_drag_event(
        &mut self,
        event: &MouseEventMsg<S>,
        config: &Configuration<S>,
    ) -> (r: Option<ToolUpdateResult<D>>)
        requires
            old(self)@.wf(),
        ensures
            (final(self)@, r) == old(self)@.handle_pointer_drag_event(*event, *config),
            final(self)@.wf(),
    {
        match event.type_ {
            MouseEventType::UpdateDrag => some_if(
                self.renderer.pointer_update_drag(event.pos),
                ToolUpdateResult::RedrawAndStopPropagation,
            ),
            MouseEventType::EndDrag => {
                if self.renderer.pointer_end_drag(event.pos) {
                    self.auto_copy(config);
                    Some(ToolUpdateResult::RedrawAndStopPropagation)
                } else {
                    Some(ToolUpdateResult::StopPropagation)
                }
            },
            _ => None,
        }
    }

    fn temporary_pointer_event(
        &mut self,
        event: &MouseEventMsg<S>,
        config: &Configuration<S>,
    ) -> (r: Option<ToolUpdateResult<D>>)
        requires
            old(self)@.wf(),
        ensures
            (final(self)@, r) == old(self)@.temporary_pointer_event(*event, *config),
            final(self)@.wf(),
    {
        if self.active_text_editing() {
            if event.type_ == MouseEventType::PointerPos {
                self.renderer.set_cursor(None);
            }
            return None;
        }
        if event.type_ == MouseEventType::PointerPos {
            let cursor = if temporary_pointer_modifier(event) {
                let pos = self.renderer.abs_canvas_to_image_coordinates(event.pos);
                self.renderer.temporary_pointer_hover_cursor(pos)
            } else {
                None
            };
            self.renderer.set_cursor(cursor);
            return None;
        }
        if event.button != MouseButton::Primary {
            return None;
        }
        if self.temporary_pointer_noop_drag {
            if event.type_ == MouseEventType::EndDrag {
                self.temporary_pointer_noop_drag = false;
            }
            return match event.type_ {
                MouseEventType::UpdateDrag | MouseEventType::EndDrag => Some(
                    ToolUpdateResult::StopPropagation,
                ),
                _ => None,
            };
        }
        if self.renderer.pointer_edit_active() {
            return self.handle_pointer_drag_event(event, config);
        }
        if !temporary_pointer_modifier(event) {
            return None;
        }
        match event.type_ {
            MouseEventType::Click => {
                if self.renderer.temporary_pointer_click(event.pos) {
                    Some(ToolUpdateResult::RedrawAndStopPropagation)
                } else {
                    Some(ToolUpdateResult::StopPropagation)
                }
            },
            MouseEventType::BeginDrag => {
                if self.renderer.temporary_pointer_begin_drag(event.pos) {
                    Some(ToolUpdateResult::RedrawAndStopPropagation)
                } else {
                    self.temporary_pointer_noop_drag = true;
                    Some(ToolUpdateResult::StopPropagation)
                }
            },
            _ => None,
        }
    }

    fn text_edit_event(&mut self, pos: Vec2D<S>) -> (r: Option<ToolUpdateResult<D>>)
        requires
            old(self)@.wf(),
        ensures
            (final(self)@, r) == old(self)@.text_edit_event(pos),
            final(self)@.wf(),
    {
        let Some((index, drawable)) = self.renderer.take_text_edit_at(pos) else {
            return None;
        };
        self.set_im_context(false);
        self.switch_to(Tools::Text);
        let ghost switched = self@;
        self.set_im_context(true);
        self.set_sender();
        let slot: usize = self.active_tool.slot();
        let started = self.tools[slot].start_existing_text_edit(drawable, index);
        assert(self@ =~= switched.with_tool(
            switched.tool().spec_set_im_context(true).spec_set_sender()
                .spec_start_existing_text_edit(drawable, index).0,
        ));
        if let Err(drawable) = started {
            self.renderer.restore_drawable(index, drawable);
            self.return_to_pointer_tool();
        }
        Some(ToolUpdateResult::RedrawAndStopPropagation)
    }

    fn pointer_event(&mut self, event: &MouseEventMsg<S>, config: &Configuration<S>) -> (r: Option<
        ToolUpdateResult<D>,
    >)
        requires
            old(self)@.wf(),
        ensures
            (final(self)@, r) == old(self)@.pointer_event(*event, *config),
            final(self)@.wf(),
    {
        if event.type_ == MouseEventType::PointerPos {
            let pos = self.renderer.abs_canvas_to_image_coordinates(event.pos);
            let cursor = self.renderer.pointer_hover_cursor(pos);
            self.renderer.set_cursor(cursor);
            return None;
        }
        if event.button != MouseButton::Primary {
            return None;
        }
        match event.type_ {
            MouseEventType::Click => {
                if event.n_pressed == 2 {
                    self.text_edit_event(event.pos)
                } else {
                    some_if(
                        self.renderer.pointer_click(event.pos),
                        ToolUpdateResult::RedrawAndStopPropagation,
                    )
                }
            },
            MouseEventType::BeginDrag => some_if(
                self.renderer.pointer_begin_drag(event.pos),
                ToolUpdateResult::RedrawAndStopPropagation,
            ),
            MouseEventType::UpdateDrag | MouseEventType::EndDrag => {
                self.handle_pointer_drag_event(event, config)
            },
            _ => None,
        }
    }

    /// Lets the mouse work on the objects. None if the event goes on to the
    /// active tool.
    pub fn handle_pointer_object_event(
        &mut self,
        event: &InputEvent<S>,
        config: &Configuration<S>,
    ) -> (r: Option<ToolUpdateResult<D>>)
        requires
            old(self)@.wf(),
        ensures
            (final(self)@, r) == old(self)@.handle_pointer_object_event(*event, *config),
            final(self)@.wf(),
    {
        let InputEvent::Mouse(me) = event else {
            return None;
        };
        if self.active_tool_type() == Tools::Pointer {
            self.pointer_event(me, config)
        } else {
            self.temporary_pointer_event(me, config)
        }
    }

    fn handle_shortcut(
        &mut self,
        shortcut: Shortcut,
        tool_result: ToolUpdateResult<D>,
        config: &Configuration<S>,
    ) -> (r: (ToolUpdateResult<D>, Vec<Command<S>>))
        requires
            old(self)@.wf(),
        ensures
            (final(self)@, r.0, command_views(r.1@)) == old(self)@.handle_shortcut(
                shortcut,
                tool_result,
                *config,
            ),
            final(self)@.wf(),
    {
        match shortcut {
            Shortcut::Undo => {
                let result = self.handle_undo();
                (result, no_commands())
            },
            Shortcut::Redo => {
                let result = self.handle_redo();
                (result, no_commands())
            },
            Shortcut::ToggleToolbars => (
                ToolUpdateResult::Unmodified,
                one_command(Command::Output(SketchBoardOutput::ToggleToolbarsDisplay)),
            ),
            Shortcut::SaveFile => {
                assert([Action::SaveToFile]@ =~= seq![Action::SaveToFile]);
                self.renderer.request_render(&[Action::SaveToFile]);
                (ToolUpdateResult::Unmodified, no_commands())
            },
            Shortcut::SaveFileAs => {
                assert([Action::SaveToFileAs]@ =~= seq![Action::SaveToFileAs]);
                self.renderer.request_render(&[Action::SaveToFileAs]);
                (ToolUpdateResult::Unmodified, no_commands())
            },
            Shortcut::CopyAndExit => {
                assert([Action::SaveToClipboard, Action::Exit]@ =~= seq![
                    Action::SaveToClipboard,
                    Action::Exit,
                ]);
                self.renderer.request_render(&[Action::SaveToClipboard, Action::Exit]);
                (ToolUpdateResult::Unmodified, no_commands())
            },
            Shortcut::CopyFilepath => {
                assert([Action::CopyFilepathToClipboard]@ =~= seq![
                    Action::CopyFilepathToClipboard,
                ]);
                self.renderer.request_render(&[Action::CopyFilepathToClipboard]);
                (ToolUpdateResult::Unmodified, no_commands())
            },
            Shortcut::Inspector => (
                ToolUpdateResult::Unmodified,
                one_command(Command::InteractiveDebugging),
            ),
            Shortcut::Pan(direction) => {
                if let Some(direction) = direction {
                    self.renderer.set_drag_offset(
                        pan_displacement(direction, config.pan_step_size),
                    );
                }
                self.renderer.store_last_offset();
                self.renderer.request_render(&[]);
                (ToolUpdateResult::Unmodified, no_commands())
            },
            Shortcut::Reset => {
                let result = self.handle_reset(config);
                (result, no_commands())
            },
            Shortcut::Escape => {
                if let ToolUpdateResult::Unmodified = tool_result {
                    self.renderer.request_render(config.actions_on_escape.as_slice());
                }
                (tool_result, no_commands())
            },
            Shortcut::Enter => {
                if let ToolUpdateResult::Unmodified = tool_result {
                    self.renderer.request_render(config.actions_on_enter.as_slice());
                }
                (tool_result, no_commands())
            },
            Shortcut::Nothing => (tool_result, no_commands()),
        }
    }

    fn handle_key_event(&mut self, ke: KeyEventMsg, config: &Configuration<S>) -> (r: (
        ToolUpdateResult<D>,
        Vec<Command<S>>,
    ))
        requires
            old(self)@.wf(),
        ensures
            (final(self)@, r.0, command_views(r.1@)) == old(self)@.handle_key_event(ke, *config),
            final(self)@.wf(),
    {
        let result = self.tool_event(&ToolEvent::Input(InputEvent::Key(ke)));
        match result {
            ToolUpdateResult::StopPropagation | ToolUpdateResult::RedrawAndStopPropagation => (
                result,
                no_commands(),
            ),
            _ => self.handle_shortcut(shortcut(&ke), result, config),
        }
    }

    /// Puts what a tool hands out on the canvas, and redraws if needed.
    fn conclude(&mut self, result: ToolUpdateResult<D>, config: &Configuration<S>)
        requires
            old(self)@.wf(),
        ensures
            final(self)@ == old(self)@.concluded(result, *config),
            final(self)@.wf(),
    {
        match self.apply_tool_update_result(result, config) {
            ToolUpdateResult::Unmodified | ToolUpdateResult::StopPropagation => {},
            _ => {
                self.refresh_screen();
            },
        }
    }

    fn handle_input_event(&mut self, event: InputEvent<S>, config: &Configuration<S>)
        requires
            old(self)@.wf(),
        ensures
            final(self)@ == old(self)@.handle_input_event(event, *config),
            final(self)@.wf(),
    {
        let mut event = event;
        event.handle_event_mouse_input(&self.renderer);
        if let Some(result) = self.handle_pointer_object_event(&event, config) {
            self.conclude(result, config);
            return;
        }
        let event = ToolEvent::Input(event);
        let result = self.tool_event(&event);
        let stops = match &result {
            ToolUpdateResult::StopPropagation | ToolUpdateResult::RedrawAndStopPropagation => true,
            _ => false,
        };
        if let ToolEvent::Input(InputEvent::Mouse(me)) = &event {
            if !stops {
                me.handle_mouse_event(&mut self.renderer, config);
            }
        }
        self.conclude(result, config);
    }

    /// Plans what is done with a rendering.
    pub fn handle_render_result(
        &self,
        image: RenderedImage,
        actions: &[Action],
        config: &Configuration<S>,
    ) -> (r: Command<S>)
        requires
            spec_needs_pixbuf(actions@) ==> image.wf(),
        ensures
            r@ == ({
                let pix_buf = rendered_pixels(image, actions@);
                CommandView::<S>::Render {
                    pix_buf,
                    steps: render_steps(pix_buf is Some, actions@, *config),
                }
            }),
    {
        let pix_buf = if needs_pixbuf(actions) {
            Some(image_to_pixbuf(image))
        } else {
            None
        };
        self.handle_render_result_with_pixbuf(pix_buf, actions, config)
    }

    /// Plans what is done with a rendering whose pixels are there already.
    pub fn handle_render_result_with_pixbuf(
        &self,
        pix_buf: Option<PixelBuffer>,
        actions: &[Action],
        config: &Configuration<S>,
    ) -> (r: Command<S>)
        ensures
            r@ == (CommandView::<S>::Render {
                pix_buf: pixbuf_view(pix_buf),
                steps: render_steps(pix_buf is Some, actions@, *config),
            }),
    {
        let steps = plan_render_steps(pix_buf.is_some(), actions, config);
        Command::Render { pix_buf, steps }
    }

    /// Notes that a rendering was saved.
    pub fn file_saved(&mut self, filename: String)
        ensures
            final(self)@ == (BoardState { last_saved_filepath: Some(filename), ..old(self)@ }),
    {
        self.last_saved_filepath = Some(filename);
    }

    /// Handles a message, and gives what the program has to do.
    pub fn update(&mut self, msg: SketchBoardInput<S>, config: &Configuration<S>) -> (r: Vec<
        Command<S>,
    >)
        requires
            old(self)@.wf(),
            msg matches SketchBoardInput::RenderResult(image, actions) ==> spec_needs_pixbuf(
                actions@,
            ) ==> image.wf(),
        ensures
            (final(self)@, command_views(r@)) == old(self)@.update(msg, *config),
            final(self)@.wf(),
    {
        match msg {
            SketchBoardInput::InputEvent(event) => {
                if let InputEvent::Key(ke) = event {
                    let (result, commands) = self.handle_key_event(ke, config);
                    self.conclude(result, config);
                    return commands;
                }
                self.handle_input_event(event, config);
                no_commands()
            },
            SketchBoardInput::ToolbarEvent(event) => {
                let result = self.handle_toolbar_event(event, config);
                self.conclude(result, config);
                no_commands()
            },
            SketchBoardInput::RenderResult(image, actions) => one_command(
                self.handle_render_result(image, actions.as_slice(), config),
            ),
            SketchBoardInput::RenderResultFollowup(pix_buf, actions, filename) => {
                if filename.is_some() {
                    self.last_saved_filepath = filename;
                }
                one_command(
                    self.handle_render_result_with_pixbuf(pix_buf, actions.as_slice(), config),
                )
            },
            SketchBoardInput::CommitEvent(text) => self.handle_text_commit(text, config),
            SketchBoardInput::Refresh => {
                self.refresh_screen();
                no_commands()
            },
            SketchBoardInput::Exit => one_command(Command::Quit),
            SketchBoardInput::ScaleFactorChanged => {
                self.renderer.resize(0, 0);
                self.refresh_screen();
                no_commands()
            },
            SketchBoardInput::Output(output) => one_command(Command::Output(output)),
        }
    }
}

} // verus!

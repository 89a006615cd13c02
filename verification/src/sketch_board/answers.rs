//! How the board answers clicks, keys and buttons.
use vstd::prelude::*;

use crate::configuration::{tool_of, Action, Configuration};
use crate::femtovg_area::imp::lemma_topmost_body;
use crate::femtovg_area::laws::{cursor_of, lemma_cursor_shows_drag};
use crate::femtovg_area::state::body_hit;
use crate::femtovg_area::views::same_contents;
use crate::femtovg_area::RendererState;
use crate::math::Scalar;
use crate::sketch_board::events::{
    InputEvent, KeyEventMsg, MouseEventMsg, SketchBoardInput, SketchBoardOutput, TextEventMsg,
    ToolbarEvent, CONTROL_MASK,
};
use crate::sketch_board::image::{bytes_of, PixelBuffer, RenderedImage};
use crate::sketch_board::keys::{spec_shortcut, Shortcut};
use crate::sketch_board::output::render_steps;
use crate::sketch_board::state::{
    pixbuf_view, spec_temporary_pointer_modifier, BoardState, CommandView,
};
use crate::tools::{slot_of, Drawable, Tool, ToolEvent, ToolUpdateResult, Tools};

verus! {

/// A click with the pointer selects the topmost object that is shown at that place of
/// the widget, or nothing; no object changes.
pub proof fn lemma_click_selects_what_is_shown<S: Scalar, D: Drawable<S>, T: Tool<S, D>>(
    s: BoardState<S, D, T>,
    me: MouseEventMsg<S>,
    config: Configuration<S>,
)
    requires
        s.wf(),
        s.active_tool_type() is Pointer,
        s.area().drawables.len() <= usize::MAX,
        me.type_ is Click,
        me.button is Primary,
        me.n_pressed != 2,
    ensures
        ({
            let at = s.renderer.abs_canvas_to_image_coordinates(me.pos);
            let seen = MouseEventMsg { pos: at, ..me };
            let area = s.handle_pointer_object_event(InputEvent::Mouse(seen), config).0.area();
            let reach = s.area().object_hit_tolerance();
            let event = s.renderer.to_image_coordinates(InputEvent::Mouse(me));
            &&& event == InputEvent::Mouse(seen)
            &&& area.drawables == s.area().drawables
            &&& area.history == s.area().history
            &&& match area.selection_focus.selected {
                Some(index) => {
                    &&& index < area.drawables.len()
                    &&& body_hit(area.drawables[index as int], at, reach)
                    &&& forall|j: int|
                        index < j < area.drawables.len() ==> !body_hit(
                            #[trigger] area.drawables[j],
                            at,
                            reach,
                        )
                },
                None => forall|j: int|
                    0 <= j < area.drawables.len() ==> !body_hit(
                        #[trigger] area.drawables[j],
                        at,
                        reach,
                    ),
            }
        }),
{
    let at = s.renderer.abs_canvas_to_image_coordinates(me.pos);
    lemma_topmost_body(s.area().drawables, at, s.area().object_hit_tolerance());
}

/// A double click on a text takes it off the canvas and hands it to the text tool,
/// together with its place; the text tool is then active.
pub proof fn lemma_double_click_opens_text<S: Scalar, D: Drawable<S>, T: Tool<S, D>>(
    s: BoardState<S, D, T>,
    me: MouseEventMsg<S>,
    index: usize,
    config: Configuration<S>,
)
    requires
        s.wf(),
        s.active_tool_type() is Pointer,
        s.active_tool is Pointer,
        s.area().drawables.len() <= usize::MAX,
        me.type_ is Click,
        me.button is Primary,
        me.n_pressed == 2,
        index < s.area().drawables.len(),
        body_hit(s.area().drawables[index as int], me.pos, s.area().object_hit_tolerance()),
        forall|j: int|
            index < j < s.area().drawables.len() ==> !body_hit(
                #[trigger] s.area().drawables[j],
                me.pos,
                s.area().object_hit_tolerance(),
            ),
        s.area().drawables[index as int].spec_supports_text_edit(),
    ensures
        ({
            let (t, result) = s.handle_pointer_object_event(InputEvent::Mouse(me), config);
            let text = s.area().drawables[index as int];
            let slot = slot_of(Tools::Text) as int;
            let ready = s.tools[slot].spec_set_im_context(true).spec_set_sender();
            let (tool, started) = ready.spec_start_existing_text_edit(text, index);
            &&& result == Some(ToolUpdateResult::<D>::RedrawAndStopPropagation)
            &&& t.tools[slot] == tool || started is Err
            &&& started is Ok ==> {
                &&& t.active_tool is Text
                &&& t.tool() == tool
                &&& t.area().drawables == s.area().drawables.remove(index as int)
                &&& t.area().selection_focus.selected is None
            }
        }),
{
    let tolerance = s.area().object_hit_tolerance();
    lemma_topmost_body(s.area().drawables, me.pos, tolerance);
    let hit = s.area().find_drawable_at(me.pos);
    assert(hit == Some(index)) by {
        if let Some(found) = hit {
            if found < index {
                assert(body_hit(s.area().drawables[index as int], me.pos, tolerance));
            } else if index < found {
                assert(!body_hit(s.area().drawables[found as int], me.pos, tolerance));
            }
        }
    }
}

/// The cursor over the canvas shows what a drag from there would do.
pub proof fn lemma_cursor_shows_what_a_drag_does<S: Scalar, D: Drawable<S>, T: Tool<S, D>>(
    s: BoardState<S, D, T>,
    me: MouseEventMsg<S>,
    config: Configuration<S>,
)
    requires
        s.wf(),
        s.area().drawables.len() <= usize::MAX,
        me.type_ is PointerPos,
    ensures
        ({
            let at = s.renderer.abs_canvas_to_image_coordinates(me.pos);
            let cursor = s.handle_pointer_object_event(
                InputEvent::Mouse(me),
                config,
            ).0.renderer.cursor;
            if s.active_tool_type() is Pointer {
                cursor == cursor_of(s.area().pointer_begin_drag(at).0.transform_session)
            } else if me.modifier.bits & 4 == 4 && !s.active_text_editing() {
                cursor == cursor_of(s.area().temporary_pointer_begin_drag(at).0.transform_session)
            } else {
                cursor is None
            }
        }),
{
    let at = s.renderer.abs_canvas_to_image_coordinates(me.pos);
    lemma_cursor_shows_drag(s.area(), at);
}

/// Without Control, the mouse belongs to the drawing tool: clicks and drags leave the
/// objects alone and go on to it.
pub proof fn lemma_drawing_tool_gets_the_mouse<S: Scalar, D: Drawable<S>, T: Tool<S, D>>(
    s: BoardState<S, D, T>,
    me: MouseEventMsg<S>,
    config: Configuration<S>,
)
    requires
        s.wf(),
        s.active_tool_type() !is Pointer,
        me.type_ !is PointerPos,
        me.modifier.bits & 4 != 4 || me.button !is Primary,
        !s.temporary_pointer_noop_drag || me.button !is Primary,
        s.area().transform_session is None,
    ensures
        s.handle_pointer_object_event(InputEvent::Mouse(me), config) == (
            s,
            None::<ToolUpdateResult<D>>,
        ),
{
}

/// With Control, a click or a drag of the primary button never reaches the drawing tool.
pub proof fn lemma_temporary_pointer_keeps_the_mouse<S: Scalar, D: Drawable<S>, T: Tool<S, D>>(
    s: BoardState<S, D, T>,
    me: MouseEventMsg<S>,
    config: Configuration<S>,
)
    requires
        s.wf(),
        s.active_tool_type() !is Pointer,
        !s.active_text_editing(),
        !s.temporary_pointer_noop_drag,
        s.area().transform_session is None,
        me.type_ is Click || me.type_ is BeginDrag,
        me.button is Primary,
        me.modifier.bits & 4 == 4,
    ensures
        ({
            let (t, result) = s.handle_pointer_object_event(InputEvent::Mouse(me), config);
            &&& result is Some
            &&& result->0.stops()
            &&& t.tools == s.tools
            &&& t.active_tool == s.active_tool
            &&& t.area().drawables == s.area().drawables
            &&& me.type_ is Click ==> t.area() == s.area().temporary_pointer_click(me.pos).0
            &&& me.type_ is BeginDrag ==> t.area() == s.area().temporary_pointer_begin_drag(
                me.pos,
            ).0
        }),
{
}

/// The tool lets a key pass without taking notice of it.
pub open spec fn passes<S: Scalar, D: Drawable<S>, T: Tool<S, D>>(tool: T, ke: KeyEventMsg) -> bool {
    tool.spec_handle_event(ToolEvent::Input(InputEvent::Key(ke))) == (
        tool,
        ToolUpdateResult::<D>::Unmodified,
    )
}

/// A key that the tool lets pass is a shortcut.
proof fn lemma_passed_key_is_a_shortcut<S: Scalar, D: Drawable<S>, T: Tool<S, D>>(
    s: BoardState<S, D, T>,
    ke: KeyEventMsg,
    config: Configuration<S>,
)
    requires
        s.wf(),
        passes::<S, D, T>(s.tool(), ke),
    ensures
        s.handle_key_event(ke, config) == s.handle_shortcut(
            spec_shortcut(ke),
            ToolUpdateResult::<D>::Unmodified,
            config,
        ),
{
    assert(s.with_tool(s.tool()) =~= s);
}

proof fn lemma_shortcut_is_like_a_button<S: Scalar, D: Drawable<S>, T: Tool<S, D>>(
    s: BoardState<S, D, T>,
    config: Configuration<S>,
)
    ensures
        ({
            let none = Seq::<CommandView<S>>::empty();
            let left = ToolUpdateResult::<D>::Unmodified;
            let (a, b, c) = (
                s.handle_toolbar_event(ToolbarEvent::Undo, config),
                s.handle_toolbar_event(ToolbarEvent::Redo, config),
                s.handle_toolbar_event(ToolbarEvent::Reset, config),
            );
            &&& s.handle_shortcut(Shortcut::Undo, left, config) == (a.0, a.1, none)
            &&& s.handle_shortcut(Shortcut::Redo, left, config) == (b.0, b.1, none)
            &&& s.handle_shortcut(Shortcut::Reset, left, config) == (c.0, c.1, none)
            &&& s.handle_shortcut(Shortcut::Nothing, left, config) == (s, left, none)
        }),
{
}

/// The shortcuts for undo, redo and reset do what the buttons do.
pub proof fn lemma_shortcuts_do_what_buttons_do<S: Scalar, D: Drawable<S>, T: Tool<S, D>>(
    s: BoardState<S, D, T>,
    ke: KeyEventMsg,
    config: Configuration<S>,
)
    requires
        s.wf(),
        passes::<S, D, T>(s.tool(), ke),
    ensures
        ({
            let (t, left, commands) = s.handle_key_event(ke, config);
            let done = (t, left);
            match spec_shortcut(ke) {
                Shortcut::Undo => done == s.handle_toolbar_event(ToolbarEvent::Undo, config)
                    && commands.len() == 0,
                Shortcut::Redo => done == s.handle_toolbar_event(ToolbarEvent::Redo, config)
                    && commands.len() == 0,
                Shortcut::Reset => done == s.handle_toolbar_event(ToolbarEvent::Reset, config)
                    && commands.len() == 0,
                Shortcut::Nothing => t == s && left is Unmodified && commands.len() == 0,
                _ => true,
            }
        }),
{
    lemma_passed_key_is_a_shortcut(s, ke, config);
    lemma_shortcut_is_like_a_button(s, config);
}

/// After a reset there is no object on the canvas, and undo brings back what was there.
pub proof fn lemma_reset_clears_the_canvas<S: Scalar, D: Drawable<S>, T: Tool<S, D>>(
    s: BoardState<S, D, T>,
    config: Configuration<S>,
)
    requires
        s.wf(),
    ensures
        ({
            let t = s.handle_toolbar_event(ToolbarEvent::Reset, config).0;
            &&& t.area().drawables.len() == 0
            &&& t.area().selection_focus.selected is None
            &&& t.style == s.style
        }),
{
    let u = s.deactivate_active_tool(config).0;
    if u.area().drawables.len() == 0 {
        assert(u.area().reset().0.drawables.len() == 0);
    }
}

/// What a tool has not finished is on the canvas before the image is saved or copied.
pub proof fn lemma_saving_finishes_the_drawing<S: Scalar, D: Drawable<S>, T: Tool<S, D>>(
    s: BoardState<S, D, T>,
    drawable: D,
    config: Configuration<S>,
)
    requires
        s.wf(),
        s.tool().spec_active(),
        s.tool().spec_handle_deactivated().1 == ToolUpdateResult::Commit(drawable),
    ensures
        ({
            let saved = |event: ToolbarEvent<S>|
                s.handle_toolbar_event(event, config).0.area().drawables;
            let all = s.area().drawables.push(drawable);
            &&& saved(ToolbarEvent::SaveFile) == all
            &&& saved(ToolbarEvent::SaveFileAs) == all
            &&& saved(ToolbarEvent::CopyClipboard) == all
        }),
{
}

/// Every change is copied if the program is configured so, and none is otherwise.
pub proof fn lemma_changes_are_copied<S: Scalar, D: Drawable<S>, T: Tool<S, D>>(
    s: BoardState<S, D, T>,
    drawable: D,
    before: D,
    index: usize,
    me: MouseEventMsg<S>,
    config: Configuration<S>,
)
    requires
        s.wf(),
        me.type_ is EndDrag,
    ensures
        ({
            let copied = if config.auto_copy {
                Some(seq![Action::SaveToClipboard])
            } else {
                s.renderer.request_render
            };
            let after = |result: ToolUpdateResult<D>|
                s.apply_tool_update_result(result, config).0.renderer.request_render;
            &&& after(ToolUpdateResult::Commit(drawable)) == copied
            &&& after(ToolUpdateResult::Modify { index, before, after: drawable }) == copied
            &&& after(ToolUpdateResult::Restore { index, drawable }) == s.renderer.request_render
            &&& after(ToolUpdateResult::Redraw) == s.renderer.request_render
            &&& s.handle_pointer_drag_event(me, config).0.renderer.request_render
                == if s.area().pointer_end_drag(me.pos).1 {
                copied
            } else {
                s.renderer.request_render
            }
        }),
{
}

/// Once a text is handed back the pointer is the active tool, and the text tool is no
/// longer connected to the input method.
pub proof fn lemma_pointer_is_back_after_an_edit<S: Scalar, D: Drawable<S>, T: Tool<S, D>>(
    s: BoardState<S, D, T>,
    drawable: D,
    before: D,
    index: usize,
    config: Configuration<S>,
)
    requires
        s.wf(),
        s.active_tool !is Pointer,
    ensures
        ({
            let modify = ToolUpdateResult::Modify { index, before, after: drawable };
            let restore = ToolUpdateResult::Restore { index, drawable };
            let a = s.apply_tool_update_result(modify, config).0;
            let b = s.apply_tool_update_result(restore, config).0;
            let slot = slot_of(s.active_tool) as int;
            &&& a.active_tool is Pointer
            &&& b.active_tool is Pointer
            &&& a.tools[slot] == s.tool().spec_set_im_context(false)
            &&& b.tools[slot] == s.tool().spec_set_im_context(false)
            &&& a.area().selection_focus.focused == Some(index) || a.area().active_tool !is Pointer
            &&& b.area().history == s.area().history
            &&& a.area().history.len() == s.area().history.len() + 1
        }),
{
}

/// The secondary button starts the configured actions, the other buttons none; and no
/// click changes what the view shows.
pub proof fn lemma_secondary_button_starts_actions<S: Scalar, D: Drawable<S>>(
    r: RendererState<S, D>,
    me: MouseEventMsg<S>,
    config: Configuration<S>,
)
    requires
        r.inner is Some,
        me.type_ is Click,
    ensures
        ({
            let t = r.mouse_event(me, config);
            &&& t.inner == r.inner
            &&& me.button is Secondary ==> t.request_render == Some(
                config.actions_on_right_click@,
            )
            &&& me.button !is Secondary ==> t == r
        }),
{
}

/// The middle button drags the view: while it is held the scale stays, and when it is
/// released the view stays where it was dragged to.
pub proof fn lemma_middle_button_drags_the_view<S: Scalar, D: Drawable<S>>(
    r: RendererState<S, D>,
    step: MouseEventMsg<S>,
    end: MouseEventMsg<S>,
    factor: S,
    config: Configuration<S>,
)
    requires
        r.inner is Some,
        step.type_ is UpdateDrag,
        step.button is Middle,
        end.type_ is EndDrag,
        end.button is Middle,
    ensures
        ({
            let going = r.mouse_event(step, config);
            let ended = r.mouse_event(end, config);
            &&& going.area().is_drag
            &&& going.area().offset == r.set_drag_offset(step.pos).area().offset
            &&& going.area().set_zoom_scale(factor, false) == going.area()
            &&& !ended.area().is_drag
            &&& ended.area().offset == r.set_drag_offset(end.pos).area().offset
            &&& ended.area().last_offset == ended.area().drag_offset
            &&& going.request_render == Some(Seq::<Action>::empty())
            &&& ended.request_render == Some(Seq::<Action>::empty())
        }),
        ({
            let other = MouseEventMsg { button: end.button, ..step };
            r.mouse_event(other, config) == r.mouse_event(step, config)
        }),
{
}

/// Drags with the other buttons do not move the view.
pub proof fn lemma_other_buttons_leave_the_view<S: Scalar, D: Drawable<S>>(
    r: RendererState<S, D>,
    me: MouseEventMsg<S>,
    config: Configuration<S>,
)
    requires
        me.type_ is UpdateDrag || me.type_ is EndDrag || me.type_ is BeginDrag,
        me.button !is Middle,
    ensures
        r.mouse_event(me, config) == r,
{
}

/// The temporary pointer is meant exactly while Control is held, whatever else is.
pub proof fn lemma_control_means_temporary_pointer<S>(me: MouseEventMsg<S>, others: u32)
    ensures
        me.modifier.bits == CONTROL_MASK | others ==> spec_temporary_pointer_modifier(me),
        me.modifier.bits == others & !CONTROL_MASK ==> !spec_temporary_pointer_modifier(me),
        CONTROL_MASK == 4,
{
    let o = others;
    assert((4u32 | o) & 4u32 == 4u32) by (bit_vector);
    assert((o & !4u32) & 4u32 == 0u32) by (bit_vector);
}

/// A rendering becomes one command with its pixels, if an action uses them, and with
/// what is done in which order; the board does not change.
pub proof fn lemma_rendering_becomes_a_command<S: Scalar, D: Drawable<S>, T: Tool<S, D>>(
    s: BoardState<S, D, T>,
    image: RenderedImage,
    actions: Vec<Action>,
    config: Configuration<S>,
)
    ensures
        ({
            let (t, commands) = s.update(SketchBoardInput::RenderResult(image, actions), config);
            let uses_pixels = exists|i: int|
                0 <= i < actions@.len() && (#[trigger] actions@[i] is SaveToClipboard
                    || actions@[i] is SaveToFile || actions@[i] is SaveToFileAs);
            &&& t == s
            &&& commands.len() == 1
            &&& commands[0] matches CommandView::Render { pix_buf, steps } && {
                &&& pix_buf is Some <==> uses_pixels
                &&& steps == render_steps(uses_pixels, actions@, config)
                &&& pix_buf matches Some(pixels) ==> {
                    &&& pixels.bytes == bytes_of(image.contents())
                    &&& image.wf() ==> (pixels.width, pixels.height) == (
                        image.width as i32,
                        image.height as i32,
                    ) && pixels.rowstride == 4 * image.width
                }
            }
        }),
{
}

/// The file that was saved last is remembered until another one is.
pub proof fn lemma_saved_file_is_remembered<S: Scalar, D: Drawable<S>, T: Tool<S, D>>(
    s: BoardState<S, D, T>,
    pix_buf: Option<PixelBuffer>,
    actions: Vec<Action>,
    filename: Option<String>,
    config: Configuration<S>,
)
    ensures
        ({
            let (t, commands) = s.update(
                SketchBoardInput::RenderResultFollowup(pix_buf, actions, filename),
                config,
            );
            &&& t.last_saved_filepath == if filename is Some {
                filename
            } else {
                s.last_saved_filepath
            }
            &&& t.renderer == s.renderer
            &&& t.tools == s.tools
            &&& commands == seq![
                CommandView::<S>::Render {
                    pix_buf: pixbuf_view(pix_buf),
                    steps: render_steps(pix_buf is Some, actions@, config),
                },
            ]
        }),
{
}

/// A change of the pixels per logical pixel only concerns the view, and is shown.
pub proof fn lemma_new_device_scale_is_shown<S: Scalar, D: Drawable<S>, T: Tool<S, D>>(
    s: BoardState<S, D, T>,
    config: Configuration<S>,
)
    requires
        s.wf(),
    ensures
        ({
            let (t, commands) = s.update(SketchBoardInput::ScaleFactorChanged, config);
            let (u, none) = s.update(SketchBoardInput::Refresh, config);
            &&& t.renderer.render_queued
            &&& same_contents(t.area(), s.area())
            &&& t.tools == s.tools
            &&& commands.len() == 0
            &&& u == (BoardState {
                renderer: RendererState { render_queued: true, ..s.renderer },
                ..s
            })
            &&& none.len() == 0
        }),
        ({
            let (t, commands) = s.update(SketchBoardInput::Exit, config);
            t == s && commands == seq![CommandView::<S>::Quit]
        }),
{
}

/// A character that is typed outside of a text selects the tool that it stands for, or
/// else the color; the other parts of the window are told.
pub proof fn lemma_typed_characters<S: Scalar, D: Drawable<S>, T: Tool<S, D>>(
    s: BoardState<S, D, T>,
    text: String,
    config: Configuration<S>,
)
    requires
        !s.active_text_editing(),
        text@.len() > 0,
    ensures
        ({
            let commands = s.handle_text_commit(TextEventMsg::Commit(text), config);
            match tool_of(config.keybinds.shortcuts@, text@[0]) {
                Some(tool) => {
                    &&& commands.len() == 2
                    &&& commands[0] == CommandView::Input(
                        SketchBoardInput::<S>::ToolbarEvent(ToolbarEvent::ToolSelected(tool)),
                    )
                    &&& commands[1] == CommandView::<S>::Output(
                        SketchBoardOutput::ToolSwitchShortcut(tool),
                    )
                },
                None => if '1' <= text@[0] && text@[0] <= '9' {
                    commands == seq![
                        CommandView::<S>::Output(
                            SketchBoardOutput::ColorSwitchShortcut(
                                (text@[0] as int - '1' as int) as u64,
                            ),
                        ),
                    ]
                } else if text@[0] == '0' {
                    commands == seq![
                        CommandView::<S>::Output(SketchBoardOutput::ColorSwitchShortcut(9)),
                    ]
                } else {
                    commands.len() == 0
                },
            }
        }),
{
}

} // verus!

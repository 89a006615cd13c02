//! What the board makes of the mouse, the keyboard and the toolbars, from the event to
//! what is on the canvas.
use vstd::prelude::*;

use crate::configuration::{Action, Configuration};
use crate::femtovg_area::drags::{
    lemma_drag_edits_what_it_holds, only_changed, plain_sessions,
};
use crate::femtovg_area::imp::lemma_topmost_body;
use crate::femtovg_area::laws::well_behaved;
use crate::femtovg_area::state::{body_hit, AreaState, ObjectEditAction};
use crate::femtovg_area::views::{
    in_the_middle, is_shown_at, lemma_displacement_means_what_is_shown,
    lemma_pan_moves_the_image, lemma_position_means_what_is_shown, lemma_reset_size_centers,
    lemma_resized_image_fits, lemma_zoom_multiplies_the_scale, usual_view,
};
use crate::femtovg_area::RendererState;
use crate::fixed::Fixed;
use crate::math::{Scalar, Vec2D};
use crate::sketch_board::events::{
    InputEvent, MouseEventMsg, SketchBoardOutput, ToolbarEvent, CONTROL_MASK, SHIFT_MASK,
};
use crate::sketch_board::keys::{PanDirection, Shortcut};
use crate::sketch_board::state::{color_of_digit, restyled, BoardState, CommandView};
use crate::style::{Color, Size, Style, StyleChange};
use crate::tools::edit::EditHandle;
use crate::tools::hits::moderate;
use crate::tools::line::{Line, LineTool};
use crate::tools::{
    lemma_tools_have_their_own_places, slot_of, Drawable, Tool, ToolEvent, ToolUpdateResult, Tools,
};

verus! {

/// A point where something happens on the widget.
pub open spec fn is_position<S>(me: MouseEventMsg<S>) -> bool {
    me.type_ is Click || me.type_ is Release || me.type_ is BeginDrag
}

/// A step of a drag, which tells how far it went.
pub open spec fn is_displacement<S>(me: MouseEventMsg<S>) -> bool {
    me.type_ is UpdateDrag || me.type_ is EndDrag
}

/// Objects and tools learn which point of the image is shown where a click or a drag
/// happens, and how long in the image a step of a drag is, whatever the button.
/// Nothing else about an event changes.
pub proof fn lemma_events_mean_what_is_shown<D: Drawable<Fixed>>(
    r: RendererState<Fixed, D>,
    me: MouseEventMsg<Fixed>,
)
    requires
        usual_view(r),
        moderate(me.pos, 0x100_0000_0000),
    ensures
        ({
            let seen = r.to_image_coordinates(InputEvent::Mouse(me));
            let d = r.device_scale;
            let (offset, scale) = (r.area().offset, r.area().scale_factor.raw as int);
            let at = seen->Mouse_0.pos;
            &&& seen == InputEvent::Mouse((MouseEventMsg { pos: at, ..me }))
            &&& is_position(me) ==> {
                &&& is_shown_at(at.x.raw as int, me.pos.x.raw * d, offset.x.raw as int, scale)
                &&& is_shown_at(at.y.raw as int, me.pos.y.raw * d, offset.y.raw as int, scale)
            }
            &&& is_displacement(me) ==> {
                &&& is_shown_at(at.x.raw as int, me.pos.x.raw * d, 0, scale)
                &&& is_shown_at(at.y.raw as int, me.pos.y.raw * d, 0, scale)
            }
            &&& !is_position(me) && !is_displacement(me) ==> at == me.pos
        }),
{
    lemma_position_means_what_is_shown(r, me.pos);
    lemma_displacement_means_what_is_shown(r, me.pos);
}

/// How long a step of a drag is does not depend on where the image lies; and a drag
/// that went nowhere went nowhere in the image.
pub proof fn lemma_displacements_ignore_the_offset<S: Scalar, D: Drawable<S>>(
    r: RendererState<S, D>,
    offset: Vec2D<S>,
    me: MouseEventMsg<S>,
)
    requires
        r.inner is Some,
        is_displacement(me),
    ensures
        r.with(AreaState { offset, ..r.area() }).to_image_coordinates(InputEvent::Mouse(me))
            == r.to_image_coordinates(InputEvent::Mouse(me)),
{
}

/// A drag that went nowhere on the widget went nowhere in the image.
pub proof fn lemma_no_displacement_stays_none<D: Drawable<Fixed>>(
    r: RendererState<Fixed, D>,
    me: MouseEventMsg<Fixed>,
)
    requires
        r.inner is Some,
        is_displacement(me),
        me.pos.x.raw == 0,
        me.pos.y.raw == 0,
    ensures
        r.to_image_coordinates(InputEvent::Mouse(me)) == InputEvent::Mouse(me),
{
    let f = r.device_factor().raw as int;
    let s = r.area().scale_factor.raw as int;
    assert(0 * f == 0);
    if s > 0 {
        assert((0int * 64) / s == 0) by (nonlinear_arith)
            requires
                s > 0,
        ;
    } else if s < 0 {
        assert((0int * 64) / (-s) == 0) by (nonlinear_arith)
            requires
                s < 0,
        ;
    }
    assert(me.pos == Vec2D { x: Fixed { raw: 0 }, y: Fixed { raw: 0 } });
    assert(r.rel_canvas_to_image_coordinates(me.pos) == me.pos);
}

/// The board with the image at another place of the window.
pub open spec fn shifted_view<S: Scalar, D: Drawable<S>, T: Tool<S, D>>(
    s: BoardState<S, D, T>,
    offset: Vec2D<S>,
) -> BoardState<S, D, T> {
    s.with_area(AreaState { offset, ..s.area() })
}

/// Where the image lies has no influence on what a step of a drag does to objects,
/// tools and histories.
pub proof fn lemma_drag_steps_ignore_the_offset<S: Scalar, D: Drawable<S>, T: Tool<S, D>>(
    s: BoardState<S, D, T>,
    offset: Vec2D<S>,
    me: MouseEventMsg<S>,
    config: Configuration<S>,
)
    requires
        s.wf(),
        is_displacement(me),
        me.button !is Middle,
    ensures
        shifted_view(s, offset).handle_input_event(InputEvent::Mouse(me), config) == shifted_view(
            s.handle_input_event(InputEvent::Mouse(me), config),
            offset,
        ),
{
    let z = shifted_view(s, offset);
    let e = s.renderer.to_image_coordinates(InputEvent::Mouse(me));
    assert(e == z.renderer.to_image_coordinates(InputEvent::Mouse(me)));
    let m = e->Mouse_0;
    lemma_drag_event_ignores_the_offset(s, offset, m, config);
    let (t, result) = s.handle_pointer_object_event(e, config);
    let (u, shifted_result) = z.handle_pointer_object_event(e, config);
    assert(result == shifted_result);
    assert(u == shifted_view(t, offset));
    match result {
        Some(result) => {
            lemma_conclusion_ignores_the_offset(t, offset, result, config);
        },
        None => {
            let (tool, left) = t.tool().spec_handle_event(ToolEvent::Input(e));
            assert(u.tool_event(ToolEvent::Input(e)).0 =~= shifted_view(
                t.with_tool(tool),
                offset,
            ));
            lemma_conclusion_ignores_the_offset(t.with_tool(tool), offset, left, config);
            let v = t.with_tool(tool);
            assert(v.with_renderer(v.renderer.mouse_event(m, config)) == v);
            let w = shifted_view(v, offset);
            assert(w.with_renderer(w.renderer.mouse_event(m, config)) == w);
        },
    }
}

/// The canvas with the image at another place of the window.
pub open spec fn shifted_area<S: Scalar, D: Drawable<S>>(
    area: AreaState<S, D>,
    offset: Vec2D<S>,
) -> AreaState<S, D> {
    AreaState { offset, ..area }
}

proof fn lemma_session_ignores_the_offset<S: Scalar, D: Drawable<S>>(
    area: AreaState<S, D>,
    offset: Vec2D<S>,
    delta: Vec2D<S>,
)
    ensures
        ({
            let shifted = shifted_area(area, offset);
            let (a, changed) = area.apply_transform_session(delta, true);
            let (b, ended) = area.pointer_end_drag(delta);
            &&& shifted.apply_transform_session(delta, true) == (shifted_area(a, offset), changed)
            &&& shifted.pointer_end_drag(delta) == (shifted_area(b, offset), ended)
        }),
{
    let shifted = shifted_area(area, offset);
    assert(shifted.apply_transform_session(delta, true).0 =~= shifted_area(
        area.apply_transform_session(delta, true).0,
        offset,
    ));
    assert(shifted.pointer_end_drag(delta).0 =~= shifted_area(
        area.pointer_end_drag(delta).0,
        offset,
    ));
}

proof fn lemma_drag_step_ignores_the_offset<S: Scalar, D: Drawable<S>, T: Tool<S, D>>(
    s: BoardState<S, D, T>,
    offset: Vec2D<S>,
    m: MouseEventMsg<S>,
    config: Configuration<S>,
)
    requires
        s.wf(),
        is_displacement(m),
    ensures
        ({
            let (t, result) = s.handle_pointer_drag_event(m, config);
            shifted_view(s, offset).handle_pointer_drag_event(m, config) == (
                shifted_view(t, offset),
                result,
            )
        }),
{
    let z = shifted_view(s, offset);
    lemma_session_ignores_the_offset(s.area(), offset, m.pos);
    assert(z.area() == shifted_area(s.area(), offset));
    if m.type_ is UpdateDrag {
        let t = s.with_area(s.area().apply_transform_session(m.pos, true).0);
        assert(z.with_area(z.area().apply_transform_session(m.pos, true).0) =~= shifted_view(
            t,
            offset,
        ));
    } else {
        let t = s.with_area(s.area().pointer_end_drag(m.pos).0);
        let u = z.with_area(z.area().pointer_end_drag(m.pos).0);
        assert(u =~= shifted_view(t, offset));
        assert(u.with_renderer(u.renderer.auto_copied(config)) =~= shifted_view(
            t.with_renderer(t.renderer.auto_copied(config)),
            offset,
        ));
    }
}

proof fn lemma_drag_event_ignores_the_offset<S: Scalar, D: Drawable<S>, T: Tool<S, D>>(
    s: BoardState<S, D, T>,
    offset: Vec2D<S>,
    m: MouseEventMsg<S>,
    config: Configuration<S>,
)
    requires
        s.wf(),
        is_displacement(m),
    ensures
        ({
            let (t, result) = s.handle_pointer_object_event(InputEvent::Mouse(m), config);
            shifted_view(s, offset).handle_pointer_object_event(InputEvent::Mouse(m), config) == (
                shifted_view(t, offset),
                result,
            )
        }),
{
    let z = shifted_view(s, offset);
    lemma_drag_step_ignores_the_offset(s, offset, m, config);
    assert(z.active_tool_type() == s.active_tool_type());
    if s.active_tool_type() !is Pointer {
        let (t, result) = s.temporary_pointer_event(m, config);
        if s.active_text_editing() || m.button !is Primary {
            assert(t == s && result is None);
        } else if s.temporary_pointer_noop_drag {
            assert(z.temporary_pointer_event(m, config).0 =~= shifted_view(t, offset));
        } else if s.area().transform_session is None {
            assert(t == s && result is None);
        }
    } else if m.button !is Primary {
        assert(s.pointer_event(m, config) == (s, None::<ToolUpdateResult<D>>));
    }
}

proof fn lemma_conclusion_ignores_the_offset<S: Scalar, D: Drawable<S>, T: Tool<S, D>>(
    s: BoardState<S, D, T>,
    offset: Vec2D<S>,
    result: ToolUpdateResult<D>,
    config: Configuration<S>,
)
    requires
        s.wf(),
    ensures
        shifted_view(s, offset).concluded(result, config) == shifted_view(
            s.concluded(result, config),
            offset,
        ),
{
    let z = shifted_view(s, offset);
    assert(z.apply_tool_update_result(result, config).0 =~= shifted_view(
        s.apply_tool_update_result(result, config).0,
        offset,
    ));
    assert(z.concluded(result, config) =~= shifted_view(s.concluded(result, config), offset));
}

/// A drag with the line tool puts a line on the canvas, on top of everything else: from
/// the point of the image where the drag began, as long and in the direction as the
/// drag went, in the style of the tool. A drag that went nowhere draws nothing.
pub proof fn lemma_drag_draws_on_the_canvas<S: Scalar>(
    s: BoardState<S, Line<S>, LineTool<S>>,
    begin: MouseEventMsg<S>,
    end: MouseEventMsg<S>,
    config: Configuration<S>,
)
    requires
        s.wf(),
        !s.temporary_pointer_noop_drag,
        s.area().transform_session is None,
        begin.type_ is BeginDrag,
        begin.button is Primary,
        !begin.modifier.spec_contains(CONTROL_MASK),
        end.type_ is EndDrag,
        end.button is Primary,
        !end.modifier.spec_intersects(SHIFT_MASK),
    ensures
        ({
            let start = s.renderer.abs_canvas_to_image_coordinates(begin.pos);
            let direction = s.renderer.rel_canvas_to_image_coordinates(end.pos);
            let begun = s.handle_input_event(InputEvent::Mouse(begin), config);
            let ended = begun.handle_input_event(InputEvent::Mouse(end), config);
            let line = Line { start, direction: Some(direction), style: s.tool().style };
            &&& begun.area().drawables == s.area().drawables
            &&& ended.area().drawables == if direction.spec_is_zero() {
                s.area().drawables
            } else {
                s.area().drawables.push(line)
            }
            &&& ended.tool().line is None
            &&& ended.tool().style == s.tool().style
        }),
{
    let e = s.renderer.to_image_coordinates(InputEvent::Mouse(begin));
    let begun = s.handle_input_event(InputEvent::Mouse(begin), config);
    assert(s.active_tool_type() is Line);
    assert(begun.tool().line is Some);
    assert(begun.area() == s.area());
    assert(begun.renderer.device_scale == s.renderer.device_scale);
    let f = begun.renderer.to_image_coordinates(InputEvent::Mouse(end));
    let ended = begun.handle_input_event(InputEvent::Mouse(end), config);
}

/// A drag with the pointer that takes hold of an object moves that object, on the canvas,
/// as far in the image as the drag went; no other object moves.
pub proof fn lemma_drag_moves_on_the_canvas<S: Scalar, D: Drawable<S>, T: Tool<S, D>>(
    s: BoardState<S, D, T>,
    begin: MouseEventMsg<S>,
    end: MouseEventMsg<S>,
    config: Configuration<S>,
    index: usize,
)
    requires
        well_behaved::<S, D>(),
        plain_sessions::<S, D>(),
        s.wf(),
        s.active_tool_type() is Pointer,
        s.area().drawables.len() <= usize::MAX,
        begin.type_ is BeginDrag,
        begin.button is Primary,
        end.type_ is EndDrag,
        end.button is Primary,
        s.area().selected_handle(s.renderer.abs_canvas_to_image_coordinates(begin.pos)) is None,
        index < s.area().drawables.len(),
        body_hit(
            s.area().drawables[index as int],
            s.renderer.abs_canvas_to_image_coordinates(begin.pos),
            s.area().object_hit_tolerance(),
        ),
        forall|j: int|
            index < j < s.area().drawables.len() ==> !body_hit(
                #[trigger] s.area().drawables[j],
                s.renderer.abs_canvas_to_image_coordinates(begin.pos),
                s.area().object_hit_tolerance(),
            ),
    ensures
        ({
            let delta = s.renderer.rel_canvas_to_image_coordinates(end.pos);
            let begun = s.handle_input_event(InputEvent::Mouse(begin), config);
            let ended = begun.handle_input_event(InputEvent::Mouse(end), config);
            let moved = s.area().drawables[index as int].spec_move_by(delta).0;
            only_changed(s.area().drawables, ended.area().drawables, index as int, moved)
        }),
{
    let pos = s.renderer.abs_canvas_to_image_coordinates(begin.pos);
    lemma_topmost_body(s.area().drawables, pos, s.area().object_hit_tolerance());
    let hit = s.area().find_drawable_at(pos);
    assert(hit == Some(index)) by {
        if let Some(found) = hit {
            if found < index {
                assert(body_hit(
                    s.area().drawables[index as int],
                    pos,
                    s.area().object_hit_tolerance(),
                ));
            } else if index < found {
                assert(!body_hit(
                    s.area().drawables[found as int],
                    pos,
                    s.area().object_hit_tolerance(),
                ));
            }
        }
    }
    let begun = s.handle_input_event(InputEvent::Mouse(begin), config);
    assert(begun.area() == s.area().pointer_begin_drag(pos).0);
    assert(begun.active_tool_type() is Pointer);
    assert(begun.renderer.device_scale == s.renderer.device_scale);
    let delta = s.renderer.rel_canvas_to_image_coordinates(end.pos);
    assert(begun.renderer.rel_canvas_to_image_coordinates(end.pos) == delta);
    let before = s.area().drawables[index as int];
    lemma_drag_edits_what_it_holds(begun.area(), index, before, EditHandle::Top, delta);
    let ended = begun.handle_input_event(InputEvent::Mouse(end), config);
    assert(begun.area().transform_session->0.action == ObjectEditAction::Move);
    assert(ended.area().drawables == begun.area().pointer_end_drag(delta).0.drawables);
}

/// What a tool hands out is on the canvas: a new object on top of the others, one that
/// was taken off in its old place again.
pub proof fn lemma_what_tools_hand_out_is_on_the_canvas<S: Scalar, D: Drawable<S>, T: Tool<S, D>>(
    s: BoardState<S, D, T>,
    drawable: D,
    before: D,
    index: usize,
    config: Configuration<S>,
)
    requires
        s.wf(),
        index <= s.area().drawables.len() <= usize::MAX,
    ensures
        ({
            let objects = s.area().drawables;
            let committed = s.apply_tool_update_result(
                ToolUpdateResult::Commit(drawable),
                config,
            ).0.area().drawables;
            let modify = ToolUpdateResult::Modify { index, before, after: drawable };
            let modified = s.apply_tool_update_result(modify, config).0.area().drawables;
            let restore = ToolUpdateResult::Restore { index, drawable };
            let restored = s.apply_tool_update_result(restore, config).0.area().drawables;
            &&& committed.len() == objects.len() + 1
            &&& committed.last() == drawable
            &&& committed.drop_last() == objects
            &&& modified[index as int] == drawable.spec_edit_snapshot()
            &&& modified.remove(index as int) == objects
            &&& restored[index as int] == drawable
            &&& restored.remove(index as int) == objects
        }),
{
    let objects = s.area().drawables;
    assert(objects.push(drawable).drop_last() =~= objects);
    let copy = drawable.spec_edit_snapshot();
    assert(objects.insert(index as int, copy).remove(index as int) =~= objects);
    assert(objects.insert(index as int, drawable).remove(index as int) =~= objects);
    if index == objects.len() {
        assert(objects.push(copy) =~= objects.insert(index as int, copy));
        assert(objects.push(drawable) =~= objects.insert(index as int, drawable));
    }
}

/// A change of the style sets what it names and leaves the rest.
pub proof fn lemma_style_changes_set_what_they_name<S>(style: Style<S>, change: StyleChange<S>)
    ensures
        ({
            let new = restyled(style, change);
            match change {
                StyleChange::Color(color) => {
                    &&& new.color == color
                    &&& (new.size, new.fill) == (style.size, style.fill)
                    &&& new.annotation_size_factor == style.annotation_size_factor
                },
                StyleChange::Size(size) => {
                    &&& new.size == size
                    &&& (new.color, new.fill) == (style.color, style.fill)
                    &&& new.annotation_size_factor == style.annotation_size_factor
                },
                StyleChange::Fill(fill) => {
                    &&& new.fill == fill
                    &&& (new.color, new.size) == (style.color, style.size)
                    &&& new.annotation_size_factor == style.annotation_size_factor
                },
                StyleChange::AnnotationSizeFactor(factor) => {
                    &&& new.annotation_size_factor == factor
                    &&& (new.color, new.size) == (style.color, style.size)
                    &&& new.fill == style.fill
                },
            }
        }),
{
}

/// The buttons of the toolbar set the property that they are for, in the style of the
/// next annotation, and the active tool learns of the whole style.
pub proof fn lemma_toolbar_sets_the_style<S: Scalar, D: Drawable<S>, T: Tool<S, D>>(
    s: BoardState<S, D, T>,
    color: Color,
    size: Size,
    factor: S,
    config: Configuration<S>,
)
    requires
        s.wf(),
    ensures
        ({
            let after = |event: ToolbarEvent<S>| s.handle_toolbar_event(event, config).0;
            let a = after(ToolbarEvent::ColorSelected(color));
            let b = after(ToolbarEvent::SizeSelected(size));
            let c = after(ToolbarEvent::ToggleFill);
            let d = after(ToolbarEvent::AnnotationSizeChanged(factor));
            &&& a.style == (Style { color, ..s.style })
            &&& b.style == (Style { size, ..s.style })
            &&& c.style == (Style { fill: !s.style.fill, ..s.style })
            &&& d.style == (Style { annotation_size_factor: factor, ..s.style })
            &&& a.tool() == s.tool().spec_handle_event(ToolEvent::StyleChanged(a.style)).0
            &&& b.tool() == s.tool().spec_handle_event(ToolEvent::StyleChanged(b.style)).0
            &&& c.tool() == s.tool().spec_handle_event(ToolEvent::StyleChanged(c.style)).0
            &&& d.tool() == s.tool().spec_handle_event(ToolEvent::StyleChanged(d.style)).0
        }),
{
}

/// A change of the style reaches the selected object, or else the one that was drawn or
/// touched last, and no other, as long as the active tool is not drawing.
pub proof fn lemma_style_reaches_the_target<S: Scalar, D: Drawable<S>, T: Tool<S, D>>(
    s: BoardState<S, D, T>,
    change: StyleChange<S>,
    index: usize,
    config: Configuration<S>,
)
    requires
        well_behaved::<S, D>(),
        s.wf(),
        !s.tool().spec_has_drawable(),
        index < s.area().drawables.len(),
        s.area().selection_focus.selected == Some(index) || (
        s.area().selection_focus.selected is None && s.area().selection_focus.focused == Some(
            index,
        )),
    ensures
        only_changed(
            s.area().drawables,
            s.apply_toolbar_style_change(change, config).0.area().drawables,
            index as int,
            s.area().drawables[index as int].spec_apply_style_change(change).0,
        ),
{
}

/// A tool that is selected is the active one, and the canvas knows its kind.
pub proof fn lemma_selected_tool_is_active<S: Scalar, D: Drawable<S>, T: Tool<S, D>>(
    s: BoardState<S, D, T>,
    tool: Tools,
    config: Configuration<S>,
)
    requires
        s.wf(),
        forall|t: T, attached: bool| #[trigger]
            t.spec_set_im_context(attached).spec_get_tool_type() == t.spec_get_tool_type(),
        forall|t: T| #[trigger]
            t.spec_set_sender().spec_get_tool_type() == t.spec_get_tool_type(),
        forall|t: T, e: ToolEvent<S>|
            (#[trigger] t.spec_handle_event(e)).0.spec_get_tool_type() == t.spec_get_tool_type(),
    ensures
        ({
            let t = s.select_tool(tool, config).0;
            &&& t.active_tool == tool
            &&& t.area().active_tool == t.active_tool_type()
            &&& t.style == s.style
            &&& !t.temporary_pointer_noop_drag
        }),
{
}

/// What the buttons and shortcuts for saving and copying ask the next frame for.
pub proof fn lemma_buttons_and_shortcuts_ask_for_renderings<
    S: Scalar,
    D: Drawable<S>,
    T: Tool<S, D>,
>(s: BoardState<S, D, T>, left: ToolUpdateResult<D>, config: Configuration<S>)
    requires
        s.wf(),
    ensures
        ({
            let button = |event: ToolbarEvent<S>|
                s.handle_toolbar_event(event, config).0.renderer.request_render;
            let key = |shortcut: Shortcut|
                s.handle_shortcut(shortcut, left, config).0.renderer.request_render;
            &&& button(ToolbarEvent::SaveFile) == Some(seq![Action::SaveToFile])
            &&& key(Shortcut::SaveFile) == Some(seq![Action::SaveToFile])
            &&& button(ToolbarEvent::SaveFileAs) == Some(seq![Action::SaveToFileAs])
            &&& key(Shortcut::SaveFileAs) == Some(seq![Action::SaveToFileAs])
            &&& button(ToolbarEvent::CopyClipboard) == Some(seq![Action::SaveToClipboard])
            &&& key(Shortcut::CopyAndExit) == Some(seq![Action::SaveToClipboard, Action::Exit])
            &&& key(Shortcut::CopyFilepath) == Some(seq![Action::CopyFilepathToClipboard])
            &&& left is Unmodified ==> {
                &&& key(Shortcut::Escape) == Some(config.actions_on_escape@)
                &&& key(Shortcut::Enter) == Some(config.actions_on_enter@)
            }
            &&& left !is Unmodified ==> {
                &&& key(Shortcut::Escape) == s.renderer.request_render
                &&& key(Shortcut::Enter) == s.renderer.request_render
            }
        }),
{
}

/// Digits stand for different colors: the first digit for the first one, and zero for
/// the last. No other character stands for a color.
pub proof fn lemma_digits_stand_for_colors(a: char, b: char)
    ensures
        color_of_digit(a) is Some <==> '0' <= a && a <= '9',
        color_of_digit(a) matches Some(color) ==> color < 10,
        color_of_digit(a) is Some && color_of_digit(a) == color_of_digit(b) ==> a == b,
        '1' <= a && a <= '9' && '1' <= b && b <= '9' ==> color_of_digit(b)->0
            - color_of_digit(a)->0 == b as int - a as int,
        color_of_digit('1') == Some(0u64),
        color_of_digit('0') == Some(9u64),
{
}

/// Turning the wheel away from the user never makes the image smaller, and turning it
/// back never larger; a wheel that stands still does nothing to the scale.
pub proof fn lemma_wheel_scales_the_image<D: Drawable<Fixed>>(
    r: RendererState<Fixed, D>,
    me: MouseEventMsg<Fixed>,
    config: Configuration<Fixed>,
)
    requires
        me.type_ is Scroll,
        r.inner is Some,
        64 <= config.zoom_factor.raw <= 4096,
        0 <= r.area().zoom_scale.raw <= 0x1000_0000,
        0 < r.area().scale_factor.raw <= 0x1000_0000,
        !r.area().is_drag,
    ensures
        ({
            let t = r.mouse_event(me, config).area();
            let base = if r.area().zoom_scale.raw == 0 {
                r.area().scale_factor.raw
            } else {
                r.area().zoom_scale.raw
            };
            &&& me.pos.y.raw < 0 ==> t.zoom_scale.raw >= base
            &&& me.pos.y.raw > 0 ==> t.zoom_scale.raw <= base
            &&& me.pos.y.raw == 0 ==> t.zoom_scale == r.area().zoom_scale
            &&& t.drawables == r.area().drawables
        }),
{
    let z = config.zoom_factor.raw as int;
    let back = Fixed::spec_from_int(1).spec_over(config.zoom_factor);
    let q = 4096int / z;
    assert(1 <= q <= 64) by (nonlinear_arith)
        requires
            q == 4096int / z,
            64 <= z <= 4096,
    ;
    assert(back.raw == q);
    lemma_zoom_multiplies_the_scale(r, config.zoom_factor);
    lemma_zoom_multiplies_the_scale(r, back);
}

/// The arrow keys move the image by one step in their direction, compared with the
/// opposite one by two; up and down do not move it sideways.
pub proof fn lemma_arrows_pan<D: Drawable<Fixed>, T: Tool<Fixed, D>>(
    s: BoardState<Fixed, D, T>,
    left: ToolUpdateResult<D>,
    config: Configuration<Fixed>,
)
    requires
        s.wf(),
        0 < s.renderer.device_scale <= 16,
        !s.area().zoom_changed(),
        !s.area().is_reset,
        s.renderer.canvas_width <= i32::MAX,
        s.renderer.canvas_height <= i32::MAX,
        -0x100_0000_0000 < config.pan_step_size.raw < 0x100_0000_0000,
        moderate(s.area().last_offset, 0x1_0000_0000_0000),
        0 <= s.renderer.resize(0, 0).area().scale_factor.raw <= 0x1000_0000,
    ensures
        ({
            let shown = |direction: PanDirection|
                s.handle_shortcut(
                    Shortcut::Pan(Some(direction)),
                    left,
                    config,
                ).0.area().offset;
            let step = config.pan_step_size.raw * s.renderer.device_scale;
            let (west, east) = (shown(PanDirection::Left), shown(PanDirection::Right));
            let (north, south) = (shown(PanDirection::Up), shown(PanDirection::Down));
            &&& east.x.raw - west.x.raw == 2 * step
            &&& east.y == west.y
            &&& south.y.raw - north.y.raw == 2 * step
            &&& south.x == north.x
            &&& south.x.raw - west.x.raw == step
            &&& east.y.raw - north.y.raw == step
        }),
{
    let zero = Fixed { raw: 0 };
    let step = config.pan_step_size;
    let back = step.spec_negate();
    let west = Vec2D { x: back, y: zero };
    let east = Vec2D { x: step, y: zero };
    let north = Vec2D { x: zero, y: back };
    let south = Vec2D { x: zero, y: step };
    lemma_pan_moves_the_image(s.renderer, west, east);
    lemma_pan_moves_the_image(s.renderer, north, south);
    lemma_pan_moves_the_image(s.renderer, west, south);
    lemma_pan_moves_the_image(s.renderer, north, east);
    let d = s.renderer.device_scale as int;
    assert((-step.raw) * d == -(step.raw * d)) by (nonlinear_arith);
    assert(0 * d == 0);
}

/// A tool that is selected gets the input method, a way to send messages and the style,
/// and is told that it is active; the one before is told that it is not, and loses the
/// input method.
pub proof fn lemma_selected_tool_is_set_up<S: Scalar, D: Drawable<S>, T: Tool<S, D>>(
    s: BoardState<S, D, T>,
    tool: Tools,
    config: Configuration<S>,
)
    requires
        s.wf(),
        tool != s.active_tool,
        !s.tool().spec_handle_event(ToolEvent::Deactivated).1.delivers(),
    ensures
        ({
            let t = s.select_tool(tool, config).0;
            let (old_slot, new_slot) = (slot_of(s.active_tool) as int, slot_of(tool) as int);
            let ready = s.tools[new_slot].spec_set_im_context(true).spec_set_sender();
            let styled = ready.spec_handle_event(ToolEvent::StyleChanged(s.style)).0;
            &&& t.tools[new_slot] == styled.spec_handle_event(ToolEvent::Activated).0
            &&& t.tools[old_slot] == s.tool().spec_handle_event(
                ToolEvent::Deactivated,
            ).0.spec_set_im_context(false)
            &&& forall|k: int|
                0 <= k < s.tools.len() && k != old_slot && k != new_slot ==> #[trigger] t.tools[k]
                    == s.tools[k]
            &&& t.area().drawables == s.area().drawables
        }),
{
    lemma_tools_have_their_own_places(tool, s.active_tool);
}

/// Saving and copying leave a tool alone that has no work in progress.
pub proof fn lemma_saving_leaves_an_idle_tool_alone<S: Scalar, D: Drawable<S>, T: Tool<S, D>>(
    s: BoardState<S, D, T>,
    config: Configuration<S>,
)
    requires
        s.wf(),
        !s.tool().spec_active(),
    ensures
        ({
            let after = |event: ToolbarEvent<S>| s.handle_toolbar_event(event, config).0;
            &&& after(ToolbarEvent::SaveFile).tools == s.tools
            &&& after(ToolbarEvent::SaveFile).area() == s.area()
            &&& after(ToolbarEvent::SaveFileAs).tools == s.tools
            &&& after(ToolbarEvent::SaveFileAs).area() == s.area()
            &&& after(ToolbarEvent::CopyClipboard).tools == s.tools
            &&& after(ToolbarEvent::CopyClipboard).area() == s.area()
        }),
{
}

/// One button shows the image in its original size and another one makes it fit; both
/// center it. The window is redrawn, and no object changes.
pub proof fn lemma_scale_buttons<D: Drawable<Fixed>, T: Tool<Fixed, D>>(
    s: BoardState<Fixed, D, T>,
    config: Configuration<Fixed>,
)
    requires
        s.wf(),
        !s.area().is_drag,
        0 < s.renderer.canvas_width <= 0x100_0000,
        0 < s.renderer.canvas_height <= 0x100_0000,
        0 < s.area().image_width,
        0 < s.area().image_height,
    ensures
        ({
            let original = s.handle_toolbar_event(ToolbarEvent::OriginalScale, config).0;
            let fitted = s.handle_toolbar_event(ToolbarEvent::Resize, config).0;
            let (a, b) = (original.area(), fitted.area());
            let (w, h) = (s.area().image_width as int, s.area().image_height as int);
            let (cw, ch) = (s.renderer.canvas_width as int, s.renderer.canvas_height as int);
            &&& a.scale_factor.raw == 64
            &&& in_the_middle(a.offset.x.raw as int, cw, w, 64)
            &&& in_the_middle(a.offset.y.raw as int, ch, h, 64)
            &&& b.scale_factor.raw * h <= 64 * ch
            &&& b.scale_factor.raw * (64 * w - h) <= 4096 * cw
            &&& a.drawables == s.area().drawables
            &&& b.drawables == s.area().drawables
            &&& original.renderer.render_queued && fitted.renderer.render_queued
        }),
{
    let r = s.renderer;
    lemma_reset_size_centers(r, Fixed::spec_from_int(1));
    let ready = r.with(
        r.area().set_zoom_scale(Fixed::spec_from_int(0), true).reset_drag_offset(),
    );
    lemma_resized_image_fits(ready, r.canvas_width as i32, r.canvas_height as i32);
    assert(ready.resize(r.canvas_width as i32, r.canvas_height as i32) =~= ready.resize(0, 0));
}

/// What some shortcuts tell the program.
pub proof fn lemma_shortcuts_tell_the_program<S: Scalar, D: Drawable<S>, T: Tool<S, D>>(
    s: BoardState<S, D, T>,
    left: ToolUpdateResult<D>,
    config: Configuration<S>,
)
    ensures
        ({
            let told = |shortcut: Shortcut| s.handle_shortcut(shortcut, left, config).2;
            &&& told(Shortcut::ToggleToolbars) == seq![
                CommandView::<S>::Output(SketchBoardOutput::ToggleToolbarsDisplay),
            ]
            &&& told(Shortcut::Inspector) == seq![CommandView::<S>::InteractiveDebugging]
            &&& forall|shortcut: Shortcut|
                !(shortcut is ToggleToolbars) && !(shortcut is Inspector) ==> (#[trigger] told(
                    shortcut,
                )).len() == 0
            &&& s.handle_shortcut(Shortcut::ToggleToolbars, left, config).0 == s
            &&& s.handle_shortcut(Shortcut::Inspector, left, config).0 == s
        }),
{
}

} // verus!

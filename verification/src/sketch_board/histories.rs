//! The histories of the canvas stay in step with its objects, whatever messages
//! the board receives.
use vstd::prelude::*;

use crate::configuration::Configuration;
use crate::femtovg_area::imp::lemma_topmost_body;
use crate::femtovg_area::laws::{
    lemma_begin_drag_keeps_consistency, lemma_commit_and_reset_keep_consistency,
    lemma_drag_keeps_consistency, lemma_selection_keeps_consistency,
    lemma_style_change_keeps_consistency, lemma_undo_and_redo_keep_consistency, undoable,
    well_behaved,
};
use crate::femtovg_area::state::AreaState;
use crate::femtovg_area::RendererState;
use crate::math::{Scalar, Vec2D};
use crate::sketch_board::events::{
    InputEvent, KeyEventMsg, MouseEventMsg, SketchBoardInput, ToolbarEvent,
};
use crate::sketch_board::keys::{spec_shortcut, Shortcut};
use crate::sketch_board::state::BoardState;
use crate::style::StyleChange;
use crate::tools::line::{Line, LineTool};
use crate::tools::{slot_of, Drawable, Tool, ToolEvent, ToolUpdateResult, Tools};

verus! {

/// The object that a result puts back on the canvas, as it was when it was taken
/// off, and its place.
pub open spec fn handed_back<D>(result: ToolUpdateResult<D>) -> Option<(usize, D)> {
    match result {
        ToolUpdateResult::Modify { index, before, .. } => Some((index, before)),
        ToolUpdateResult::Restore { index, drawable } => Some((index, drawable)),
        _ => None,
    }
}

/// What a tool with the object `held` makes of an event, by what it holds after
/// that: it keeps the object or hands it back, and commits none while it has one.
pub open spec fn faithful<D>(
    held: Option<(usize, D)>,
    held_after: Option<(usize, D)>,
    result: ToolUpdateResult<D>,
) -> bool {
    if handed_back(result) is Some {
        held == handed_back(result) && held_after is None
    } else {
        &&& held_after == held
        &&& result is Commit ==> held is None
    }
}

/// Keys that do nothing but what the active tool makes of them, or start actions.
pub open spec fn leaves_result_alone(shortcut: Shortcut) -> bool {
    shortcut is Escape || shortcut is Enter || shortcut is Nothing
}

/// Tools that hand back what they took. `held` is the object that a tool holds and
/// the place that it was taken from. A tool holds what it was given to edit until
/// it hands it back, changed or not: on its own, or when it is deactivated. It
/// takes text, reacts to undo and redo and has something to show meanwhile, and no
/// key that is a command makes it hand the object back.
pub open spec fn hands_back<S: Scalar, D: Drawable<S>, T: Tool<S, D>>(
    held: spec_fn(T) -> Option<(usize, D)>,
) -> bool {
    &&& forall|t: T, e: ToolEvent<S>|
        faithful(held(t), held((#[trigger] t.spec_handle_event(e)).0), t.spec_handle_event(e).1)
    &&& forall|t: T|
        held((#[trigger] t.spec_handle_event(ToolEvent::Deactivated)).0) is None
    &&& forall|t: T, ke: KeyEventMsg|
        {
            let result = (#[trigger] t.spec_handle_event(ToolEvent::Input(InputEvent::Key(ke)))).1;
            leaves_result_alone(spec_shortcut(ke)) || handed_back(result) is None
        }
    &&& forall|t: T|
        {
            let (after, result) = #[trigger] t.spec_handle_deactivated();
            faithful(held(t), held(after), result) && held(after) is None
        }
    &&& forall|t: T|
        {
            let (after, result) = #[trigger] t.spec_handle_undo();
            faithful(held(t), held(after), result)
        }
    &&& forall|t: T|
        {
            let (after, result) = #[trigger] t.spec_handle_redo();
            faithful(held(t), held(after), result)
        }
    &&& forall|t: T, attached: bool|
        held(#[trigger] t.spec_set_im_context(attached)) == held(t)
    &&& forall|t: T| held(#[trigger] t.spec_set_sender()) == held(t)
    &&& forall|t: T, d: D, i: usize|
        held(t) is None ==> {
            let (after, started) = #[trigger] t.spec_start_existing_text_edit(d, i);
            match started {
                Ok(_) => held(after) == Some((i, d)),
                Err(back) => back == d && held(after) is None,
            }
        }
    &&& forall|t: T|
        (#[trigger] held(t)) is Some ==> {
            &&& t.spec_get_tool_type() is Text
            &&& t.spec_input_enabled()
            &&& t.spec_active()
            &&& t.spec_has_drawable()
        }
}

/// The line tool is one of them: it never takes an object off the canvas.
pub proof fn lemma_line_tool_hands_back<S: Scalar>()
    ensures
        hands_back::<S, Line<S>, LineTool<S>>(|t: LineTool<S>| None),
{
}

/// The canvas with the object put back that a tool holds.
pub open spec fn whole<S: Scalar, D: Drawable<S>>(
    area: AreaState<S, D>,
    held: Option<(usize, D)>,
) -> AreaState<S, D> {
    match held {
        Some((index, drawable)) => AreaState {
            drawables: area.drawables.insert(index as int, drawable),
            ..area
        },
        None => area,
    }
}

/// With the object put back that a tool holds, the histories are in step with the
/// objects, no object is shown where it is not, and there is room for `room` more
/// objects. No object is dragged while a tool holds one.
pub open spec fn in_step<S: Scalar, D: Drawable<S>>(
    area: AreaState<S, D>,
    held: Option<(usize, D)>,
    room: nat,
) -> bool {
    &&& held matches Some((index, _)) ==> {
        &&& index <= area.drawables.len()
        &&& area.transform_session is None
    }
    &&& whole(area, held).consistent()
    &&& whole(area, held).at_rest()
    &&& whole(area, held).drawables.len() + room <= usize::MAX
}

/// Only the active tool holds an object.
pub open spec fn others_hold_nothing<S: Scalar, D: Drawable<S>, T: Tool<S, D>>(
    s: BoardState<S, D, T>,
    held: spec_fn(T) -> Option<(usize, D)>,
) -> bool {
    forall|k: int|
        0 <= k < s.tools.len() && k != slot_of(s.active_tool) ==> held(#[trigger] s.tools[k]) is None
}

/// The histories are in step, and no drag is in progress.
pub open spec fn calm<S: Scalar, D: Drawable<S>, T: Tool<S, D>>(
    s: BoardState<S, D, T>,
    held: spec_fn(T) -> Option<(usize, D)>,
    room: nat,
) -> bool {
    &&& s.wf()
    &&& others_hold_nothing(s, held)
    &&& in_step(s.area(), held(s.tool()), room)
    &&& s.area().transform_session is None
}

/// The same, once the result of a tool is put on the canvas.
pub open spec fn calm_with<S: Scalar, D: Drawable<S>, T: Tool<S, D>>(
    s: BoardState<S, D, T>,
    result: ToolUpdateResult<D>,
    held: spec_fn(T) -> Option<(usize, D)>,
    room: nat,
) -> bool {
    if handed_back(result) is Some {
        &&& s.wf()
        &&& others_hold_nothing(s, held)
        &&& held(s.tool()) is None
        &&& in_step(s.area(), handed_back(result), room)
        &&& s.area().transform_session is None
    } else {
        &&& calm(s, held, room)
        &&& result is Commit ==> held(s.tool()) is None
    }
}

/// What the view shows has no part in the histories.
proof fn lemma_view_has_no_part<S: Scalar, D: Drawable<S>>(
    a: AreaState<S, D>,
    b: AreaState<S, D>,
    held: Option<(usize, D)>,
    room: nat,
)
    requires
        in_step(a, held, room),
        b.drawables == a.drawables,
        b.history == a.history,
        b.redo_history == a.redo_history,
        b.transform_session == a.transform_session,
    ensures
        in_step(b, held, room),
{
    assert(whole(b, held).settled() == whole(a, held).settled());
}

proof fn lemma_switch<S: Scalar, D: Drawable<S>, T: Tool<S, D>>(
    s: BoardState<S, D, T>,
    tool: Tools,
    held: spec_fn(T) -> Option<(usize, D)>,
    room: nat,
)
    requires
        calm(s, held, room),
        held(s.tool()) is None,
    ensures
        calm(s.switched_to(tool), held, room),
        held(s.switched_to(tool).tool()) is None,
        forall|k: int|
            0 <= k < s.tools.len() ==> held(#[trigger] s.switched_to(tool).tools[k]) is None,
{
    let t = BoardState { active_tool: tool, ..s };
    let pos = Vec2D { x: S::spec_from_int(0), y: S::spec_from_int(0) };
    lemma_selection_keeps_consistency(s.area(), pos, t.active_tool_type());
    assert(s.tool() == s.tools[slot_of(s.active_tool) as int]);
    assert(t.tool() == s.tools[slot_of(tool) as int]);
}

/// A new tool in the place of the active one.
proof fn lemma_with_tool<S: Scalar, D: Drawable<S>, T: Tool<S, D>>(
    s: BoardState<S, D, T>,
    tool: T,
    held: spec_fn(T) -> Option<(usize, D)>,
)
    requires
        s.wf(),
        others_hold_nothing(s, held),
    ensures
        s.with_tool(tool).wf(),
        s.with_tool(tool).tool() == tool,
        s.with_tool(tool).area() == s.area(),
        others_hold_nothing(s.with_tool(tool), held),
{
    let t = s.with_tool(tool);
    assert forall|k: int| 0 <= k < t.tools.len() && k != slot_of(t.active_tool) implies held(
        #[trigger] t.tools[k],
    ) is None by {
        assert(t.tools[k] == s.tools[k]);
    }
}

proof fn lemma_tool_event<S: Scalar, D: Drawable<S>, T: Tool<S, D>>(
    s: BoardState<S, D, T>,
    event: ToolEvent<S>,
    held: spec_fn(T) -> Option<(usize, D)>,
    room: nat,
)
    requires
        hands_back::<S, D, T>(held),
        calm(s, held, room),
    ensures
        calm_with(s.tool_event(event).0, s.tool_event(event).1, held, room),
        held(s.tool()) is None ==> {
            &&& handed_back(s.tool_event(event).1) is None
            &&& held(s.tool_event(event).0.tool()) is None
        },
{
    lemma_with_tool(s, s.tool().spec_handle_event(event).0, held);
}

proof fn lemma_return_to_pointer<S: Scalar, D: Drawable<S>, T: Tool<S, D>>(
    s: BoardState<S, D, T>,
    held: spec_fn(T) -> Option<(usize, D)>,
    room: nat,
)
    requires
        hands_back::<S, D, T>(held),
        calm(s, held, room),
        held(s.tool()) is None,
    ensures
        calm(s.return_to_pointer_tool(), held, room),
        held(s.return_to_pointer_tool().tool()) is None,
{
    let tool = s.tool().spec_set_im_context(false);
    lemma_with_tool(s, tool, held);
    lemma_switch(s.with_tool(tool), Tools::Pointer, held, room);
}

/// An object that comes back to the canvas, changed or not, takes its old place.
proof fn lemma_object_comes_back<S: Scalar, D: Drawable<S>>(
    area: AreaState<S, D>,
    index: usize,
    before: D,
    after: D,
    room: nat,
)
    requires
        well_behaved::<S, D>(),
        in_step(area, Some((index, before)), room),
    ensures
        in_step(area.restore_drawable(index, before), None, room),
        in_step(area.modify_drawable(index, before, after), None, room),
{
    let before_edit = whole(area, Some((index, before)));
    let restored = area.restore_drawable(index, before);
    assert(restored.drawables =~= before_edit.drawables);
    let modified = area.modify_drawable(index, before, after);
    assert(modified.drawables =~= before_edit.drawables.update(index as int, after));
    assert(modified.drawables.update(index as int, before) =~= before_edit.drawables);
    assert(modified.history.drop_last() =~= area.history);
    assert(undoable(modified.drawables, modified.history));
}

proof fn lemma_apply<S: Scalar, D: Drawable<S>, T: Tool<S, D>>(
    s: BoardState<S, D, T>,
    result: ToolUpdateResult<D>,
    config: Configuration<S>,
    held: spec_fn(T) -> Option<(usize, D)>,
    room: nat,
)
    requires
        well_behaved::<S, D>(),
        hands_back::<S, D, T>(held),
        calm_with(s, result, held, room + 1),
    ensures
        calm(s.apply_tool_update_result(result, config).0, held, room),
        handed_back(s.apply_tool_update_result(result, config).1) is None,
        !s.apply_tool_update_result(result, config).1.delivers(),
        held(s.tool()) is None ==> held(s.apply_tool_update_result(result, config).0.tool()) is None,
        calm(s.concluded(result, config), held, room),
{
    match result {
        ToolUpdateResult::Commit(drawable) => {
            lemma_commit_and_reset_keep_consistency(s.area(), drawable);
        },
        ToolUpdateResult::Modify { index, before, after } => {
            lemma_object_comes_back(s.area(), index, before, after, room);
            let t = s.with_area(s.area().modify_drawable(index, before, after));
            lemma_return_to_pointer(t, held, room);
        },
        ToolUpdateResult::Restore { index, drawable } => {
            lemma_object_comes_back(s.area(), index, drawable, drawable, room);
            let t = s.with_area(s.area().restore_drawable(index, drawable));
            lemma_return_to_pointer(t, held, room);
        },
        _ => {},
    }
}

proof fn lemma_deactivate<S: Scalar, D: Drawable<S>, T: Tool<S, D>>(
    s: BoardState<S, D, T>,
    config: Configuration<S>,
    held: spec_fn(T) -> Option<(usize, D)>,
    room: nat,
)
    requires
        well_behaved::<S, D>(),
        hands_back::<S, D, T>(held),
        calm(s, held, room + 1),
    ensures
        calm(s.deactivate_active_tool(config).0, held, room),
        held(s.deactivate_active_tool(config).0.tool()) is None,
{
    let (tool, result) = s.tool().spec_handle_deactivated();
    lemma_with_tool(s, tool, held);
    lemma_apply(s.with_tool(tool), result, config, held, room);
}

/// There is room for what a reset put away, and for what was undone.
pub open spec fn undo_fits<S: Scalar, D: Drawable<S>>(area: AreaState<S, D>, room: nat) -> bool {
    &&& area.undo().0.drawables.len() + room <= usize::MAX
    &&& area.redo().0.drawables.len() + room <= usize::MAX
}

proof fn lemma_undo_and_redo<S: Scalar, D: Drawable<S>, T: Tool<S, D>>(
    s: BoardState<S, D, T>,
    held: spec_fn(T) -> Option<(usize, D)>,
    room: nat,
)
    requires
        well_behaved::<S, D>(),
        hands_back::<S, D, T>(held),
        calm(s, held, room + 1),
        held(s.tool()) is None ==> undo_fits(s.area(), room),
    ensures
        calm_with(s.handle_undo().0, s.handle_undo().1, held, room),
        calm_with(s.handle_redo().0, s.handle_redo().1, held, room),
{
    if s.tool().spec_active() {
        lemma_with_tool(s, s.tool().spec_handle_undo().0, held);
        lemma_with_tool(s, s.tool().spec_handle_redo().0, held);
    } else {
        lemma_undo_and_redo_keep_consistency(s.area());
    }
}

proof fn lemma_reset<S: Scalar, D: Drawable<S>, T: Tool<S, D>>(
    s: BoardState<S, D, T>,
    config: Configuration<S>,
    held: spec_fn(T) -> Option<(usize, D)>,
    room: nat,
)
    requires
        well_behaved::<S, D>(),
        hands_back::<S, D, T>(held),
        calm(s, held, room + 1),
    ensures
        calm_with(s.handle_reset(config).0, s.handle_reset(config).1, held, room),
{
    lemma_deactivate(s, config, held, room);
    let t = s.deactivate_active_tool(config).0;
    if t.area().drawables.len() > 0 {
        lemma_commit_and_reset_keep_consistency(t.area(), t.area().drawables[0]);
    }
}

proof fn lemma_select<S: Scalar, D: Drawable<S>, T: Tool<S, D>>(
    s: BoardState<S, D, T>,
    tool: Tools,
    config: Configuration<S>,
    held: spec_fn(T) -> Option<(usize, D)>,
    room: nat,
)
    requires
        well_behaved::<S, D>(),
        hands_back::<S, D, T>(held),
        calm(s, held, room + 1),
    ensures
        calm_with(s.select_tool(tool, config).0, s.select_tool(tool, config).1, held, room),
{
    let s0 = BoardState { temporary_pointer_noop_drag: false, ..s };
    assert(calm(s0, held, room + 1));
    let (s1, result) = s0.tool_event(ToolEvent::Deactivated);
    lemma_tool_event(s0, ToolEvent::Deactivated, held, room + 1);
    lemma_with_tool(s0, s0.tool().spec_handle_event(ToolEvent::Deactivated).0, held);
    assert(held(s1.tool()) is None);
    lemma_with_tool(s1, s1.tool().spec_set_im_context(false), held);
    let s2 = s1.with_tool(s1.tool().spec_set_im_context(false));
    lemma_apply(s2, result, config, held, room);
    let s3 = s2.apply_tool_update_result(result, config).0;
    lemma_switch(s3, tool, held, room);
    let s4 = s3.switched_to(tool);
    let s5 = if tool is Pointer {
        s4
    } else {
        s4.with_cursor(None)
    };
    assert(calm(s5, held, room));
    let ready = s5.tool().spec_set_im_context(true).spec_set_sender();
    lemma_with_tool(s5, ready, held);
    let s6 = s5.with_tool(ready);
    assert(calm(s6, held, room));
    lemma_tool_event(s6, ToolEvent::StyleChanged(s6.style), held, room);
    let s7 = s6.tool_event(ToolEvent::StyleChanged(s6.style)).0;
    assert(calm(s7, held, room));
    lemma_tool_event(s7, ToolEvent::Activated, held, room);
}

proof fn lemma_style<S: Scalar, D: Drawable<S>, T: Tool<S, D>>(
    s: BoardState<S, D, T>,
    change: StyleChange<S>,
    config: Configuration<S>,
    held: spec_fn(T) -> Option<(usize, D)>,
    room: nat,
)
    requires
        well_behaved::<S, D>(),
        hands_back::<S, D, T>(held),
        calm(s, held, room),
    ensures
        calm_with(
            s.apply_toolbar_style_change(change, config).0,
            s.apply_toolbar_style_change(change, config).1,
            held,
            room,
        ),
{
    let style = s.apply_toolbar_style_change(change, config).0.style;
    let s0 = BoardState { style, ..s };
    assert(calm(s0, held, room));
    lemma_tool_event(s0, ToolEvent::StyleChanged(style), held, room);
    if !s.tool().spec_has_drawable() {
        lemma_style_change_keeps_consistency(s.area(), change);
    }
}

proof fn lemma_toolbar<S: Scalar, D: Drawable<S>, T: Tool<S, D>>(
    s: BoardState<S, D, T>,
    event: ToolbarEvent<S>,
    config: Configuration<S>,
    held: spec_fn(T) -> Option<(usize, D)>,
    room: nat,
)
    requires
        well_behaved::<S, D>(),
        hands_back::<S, D, T>(held),
        calm(s, held, room + 1),
        held(s.tool()) is None ==> undo_fits(s.area(), room),
    ensures
        calm_with(
            s.handle_toolbar_event(event, config).0,
            s.handle_toolbar_event(event, config).1,
            held,
            room,
        ),
{
    match event {
        ToolbarEvent::ToolSelected(tool) => {
            lemma_select(s, tool, config, held, room);
        },
        ToolbarEvent::ColorSelected(color) => {
            lemma_style(s, StyleChange::Color(color), config, held, room);
        },
        ToolbarEvent::SizeSelected(size) => {
            lemma_style(s, StyleChange::Size(size), config, held, room);
        },
        ToolbarEvent::ToggleFill => {
            lemma_style(s, StyleChange::Fill(!s.style.fill), config, held, room);
        },
        ToolbarEvent::AnnotationSizeChanged(value) => {
            lemma_style(s, StyleChange::AnnotationSizeFactor(value), config, held, room);
        },
        ToolbarEvent::Undo | ToolbarEvent::Redo => {
            lemma_undo_and_redo(s, held, room);
        },
        ToolbarEvent::Reset => {
            lemma_reset(s, config, held, room);
        },
        ToolbarEvent::SaveFile | ToolbarEvent::SaveFileAs | ToolbarEvent::CopyClipboard => {
            lemma_deactivate(s, config, held, room);
        },
        ToolbarEvent::Resize => {
            lemma_view_has_no_part(s.area(), s.handle_scale(0).0.area(), held(s.tool()), room);
        },
        ToolbarEvent::OriginalScale => {
            lemma_view_has_no_part(s.area(), s.handle_scale(1).0.area(), held(s.tool()), room);
        },
    }
}

proof fn lemma_shortcut<S: Scalar, D: Drawable<S>, T: Tool<S, D>>(
    s: BoardState<S, D, T>,
    shortcut: Shortcut,
    tool_result: ToolUpdateResult<D>,
    config: Configuration<S>,
    held: spec_fn(T) -> Option<(usize, D)>,
    room: nat,
)
    requires
        well_behaved::<S, D>(),
        hands_back::<S, D, T>(held),
        calm_with(s, tool_result, held, room + 1),
        leaves_result_alone(shortcut) || handed_back(tool_result) is None,
        !leaves_result_alone(shortcut) && held(s.tool()) is None ==> undo_fits(s.area(), room),
    ensures
        calm_with(
            s.handle_shortcut(shortcut, tool_result, config).0,
            s.handle_shortcut(shortcut, tool_result, config).1,
            held,
            room,
        ),
{
    match shortcut {
        Shortcut::Undo | Shortcut::Redo => {
            lemma_undo_and_redo(s, held, room);
        },
        Shortcut::Reset => {
            lemma_reset(s, config, held, room);
        },
        Shortcut::Pan(_) => {
            let t = s.handle_shortcut(shortcut, tool_result, config).0;
            lemma_view_has_no_part(s.area(), t.area(), held(s.tool()), room);
        },
        _ => {},
    }
}

proof fn lemma_text_edit<S: Scalar, D: Drawable<S>, T: Tool<S, D>>(
    s: BoardState<S, D, T>,
    pos: Vec2D<S>,
    held: spec_fn(T) -> Option<(usize, D)>,
    room: nat,
)
    requires
        well_behaved::<S, D>(),
        hands_back::<S, D, T>(held),
        calm(s, held, room),
        held(s.tool()) is None,
    ensures
        calm(s.text_edit_event(pos).0, held, room),
{
    let (area, taken) = s.area().take_text_edit_at(pos);
    let s0 = s.with_area(area);
    if let Some((index, drawable)) = taken {
        lemma_topmost_body(s.area().drawables, pos, s.area().object_hit_tolerance());
        let tool = s0.tool().spec_set_im_context(false);
        lemma_with_tool(s0, tool, held);
        let s1 = s0.with_tool(tool);
        let s2 = s1.switched_to(Tools::Text);
        assert(s2.tools == s1.tools);
        assert forall|k: int| 0 <= k < s2.tools.len() implies held(#[trigger] s2.tools[k]) is None by {
            if k == slot_of(s1.active_tool) {
                assert(s1.tools[k] == s1.tool());
            }
        }
        assert(s2.tool() == s2.tools[slot_of(Tools::Text) as int]);
        assert(others_hold_nothing(s2, held));
        let ready = s2.tool().spec_set_im_context(true).spec_set_sender();
        let (edited, started) = ready.spec_start_existing_text_edit(drawable, index);
        lemma_with_tool(s2, edited, held);
        let s3 = s2.with_tool(edited);
        assert(s3.area().drawables.insert(index as int, drawable) =~= s.area().drawables);
        let back = whole(s3.area(), Some((index, drawable)));
        assert(back.settled() == s.area().settled());
        assert(in_step(s3.area(), Some((index, drawable)), room));
        if started is Err {
            lemma_object_comes_back(s3.area(), index, drawable, drawable, room);
            let s4 = s3.with_area(s3.area().restore_drawable(index, drawable));
            lemma_return_to_pointer(s4, held, room);
        }
    }
}

/// What an event that the objects saw may leave.
pub open spec fn seen_by_objects<S: Scalar, D: Drawable<S>, T: Tool<S, D>>(
    t: BoardState<S, D, T>,
    result: Option<ToolUpdateResult<D>>,
    held: spec_fn(T) -> Option<(usize, D)>,
    room: nat,
) -> bool {
    &&& t.wf()
    &&& others_hold_nothing(t, held)
    &&& in_step(t.area(), held(t.tool()), room)
    &&& result is None ==> t.area().transform_session is None
    &&& result matches Some(r) ==> r.stops()
}

proof fn lemma_no_drag<S: Scalar, D: Drawable<S>, T: Tool<S, D>>(
    s: BoardState<S, D, T>,
    me: MouseEventMsg<S>,
    config: Configuration<S>,
    held: spec_fn(T) -> Option<(usize, D)>,
    room: nat,
)
    requires
        calm(s, held, room),
    ensures
        ({
            let (t, result) = s.handle_pointer_drag_event(me, config);
            seen_by_objects(t, result, held, room)
        }),
{
    let area = s.area();
    assert(area.apply_transform_session(me.pos, true) == (area, false));
    assert(area.pointer_end_drag(me.pos).0 =~= area);
    assert(!area.pointer_end_drag(me.pos).1);
}

proof fn lemma_pointer_event<S: Scalar, D: Drawable<S>, T: Tool<S, D>>(
    s: BoardState<S, D, T>,
    me: MouseEventMsg<S>,
    config: Configuration<S>,
    held: spec_fn(T) -> Option<(usize, D)>,
    room: nat,
)
    requires
        well_behaved::<S, D>(),
        hands_back::<S, D, T>(held),
        calm(s, held, room),
        held(s.tool()) is None,
    ensures
        ({
            let (t, result) = s.pointer_event(me, config);
            seen_by_objects(t, result, held, room)
        }),
{
    if me.type_ is Click {
        if me.n_pressed == 2 {
            lemma_text_edit(s, me.pos, held, room);
        } else {
            lemma_selection_keeps_consistency(s.area(), me.pos, Tools::Pointer);
        }
    } else if me.type_ is BeginDrag {
        lemma_begin_drag_keeps_consistency(s.area(), me.pos);
    } else {
        lemma_no_drag(s, me, config, held, room);
    }
}

proof fn lemma_temporary_pointer_event<S: Scalar, D: Drawable<S>, T: Tool<S, D>>(
    s: BoardState<S, D, T>,
    me: MouseEventMsg<S>,
    config: Configuration<S>,
    held: spec_fn(T) -> Option<(usize, D)>,
    room: nat,
)
    requires
        well_behaved::<S, D>(),
        hands_back::<S, D, T>(held),
        calm(s, held, room),
    ensures
        ({
            let (t, result) = s.temporary_pointer_event(me, config);
            seen_by_objects(t, result, held, room)
        }),
{
    if held(s.tool()) is None {
        if me.type_ is Click {
            lemma_selection_keeps_consistency(s.area(), me.pos, Tools::Pointer);
        } else if me.type_ is BeginDrag {
            lemma_begin_drag_keeps_consistency(s.area(), me.pos);
        }
    } else {
        assert(s.active_text_editing());
    }
}

proof fn lemma_view_event<S: Scalar, D: Drawable<S>>(
    r: RendererState<S, D>,
    me: MouseEventMsg<S>,
    config: Configuration<S>,
    held: Option<(usize, D)>,
    room: nat,
)
    requires
        r.inner is Some,
        in_step(r.area(), held, room),
    ensures
        r.mouse_event(me, config).inner is Some,
        in_step(r.mouse_event(me, config).area(), held, room),
        r.mouse_event(me, config).area().transform_session == r.area().transform_session,
{
    lemma_view_has_no_part(r.area(), r.mouse_event(me, config).area(), held, room);
}

proof fn lemma_input<S: Scalar, D: Drawable<S>, T: Tool<S, D>>(
    s: BoardState<S, D, T>,
    event: InputEvent<S>,
    config: Configuration<S>,
    held: spec_fn(T) -> Option<(usize, D)>,
    room: nat,
)
    requires
        well_behaved::<S, D>(),
        hands_back::<S, D, T>(held),
        calm(s, held, room + 1),
    ensures
        ({
            let t = s.handle_input_event(event, config);
            &&& t.wf()
            &&& others_hold_nothing(t, held)
            &&& in_step(t.area(), held(t.tool()), room)
        }),
{
    let e = s.renderer.to_image_coordinates(event);
    let (t, object_result) = s.handle_pointer_object_event(e, config);
    if let InputEvent::Mouse(me) = e {
        if s.active_tool_type() is Pointer {
            assert(held(s.tool()) is None);
            lemma_pointer_event(s, me, config, held, room + 1);
        } else {
            lemma_temporary_pointer_event(s, me, config, held, room + 1);
        }
    }
    match object_result {
        Some(result) => {
            let u = t.concluded(result, config);
            assert(u.area() == t.area());
            assert(u.tools == t.tools);
            assert(u.active_tool == t.active_tool);
        },
        None => {
            lemma_tool_event(t, ToolEvent::Input(e), held, room + 1);
            let (u, result) = t.tool_event(ToolEvent::Input(e));
            let carried = if handed_back(result) is Some {
                handed_back(result)
            } else {
                held(u.tool())
            };
            if let InputEvent::Mouse(me) = e {
                lemma_view_event(u.renderer, me, config, carried, room + 1);
                if !result.stops() {
                    let v = u.with_renderer(u.renderer.mouse_event(me, config));
                    assert(v.tools == u.tools);
                    assert(others_hold_nothing(v, held));
                    lemma_apply(v, result, config, held, room);
                } else {
                    lemma_apply(u, result, config, held, room);
                }
            } else {
                lemma_apply(u, result, config, held, room);
            }
        },
    }
}

/// As long as no drag is in progress and the tools hand back what they took, no
/// message brings the histories out of step with the objects. Everything in them
/// can be undone and redone, once an object that is being edited is back in its
/// place; and only the active tool holds one.
pub proof fn lemma_update_keeps_histories_in_step<S: Scalar, D: Drawable<S>, T: Tool<S, D>>(
    s: BoardState<S, D, T>,
    msg: SketchBoardInput<S>,
    config: Configuration<S>,
    held: spec_fn(T) -> Option<(usize, D)>,
)
    requires
        well_behaved::<S, D>(),
        hands_back::<S, D, T>(held),
        s.wf(),
        others_hold_nothing(s, held),
        in_step(s.area(), held(s.tool()), 2),
        s.area().transform_session is None,
        held(s.tool()) is None ==> undo_fits(s.area(), 1),
    ensures
        ({
            let t = s.update(msg, config).0;
            &&& t.wf()
            &&& others_hold_nothing(t, held)
            &&& in_step(t.area(), held(t.tool()), 0)
        }),
{
    match msg {
        SketchBoardInput::InputEvent(InputEvent::Key(ke)) => {
            let event = ToolEvent::Input(InputEvent::Key(ke));
            lemma_tool_event(s, event, held, 2);
            lemma_with_tool(s, s.tool().spec_handle_event(event).0, held);
            let (t, result) = s.tool_event(event);
            let shortcut = spec_shortcut(ke);
            if !result.stops() {
                if !leaves_result_alone(shortcut) {
                    assert(handed_back(result) is None);
                    assert(held(t.tool()) == held(s.tool()));
                }
                lemma_shortcut(t, shortcut, result, config, held, 1);
            }
            let (u, left, _) = s.handle_key_event(ke, config);
            assert(calm_with(u, left, held, 1));
            lemma_apply(u, left, config, held, 0);
        },
        SketchBoardInput::InputEvent(event) => {
            lemma_input(s, event, config, held, 1);
        },
        SketchBoardInput::ToolbarEvent(event) => {
            lemma_toolbar(s, event, config, held, 1);
            let (t, result) = s.handle_toolbar_event(event, config);
            lemma_apply(t, result, config, held, 0);
        },
        SketchBoardInput::ScaleFactorChanged => {
            lemma_view_has_no_part(
                s.area(),
                s.renderer.resize(0, 0).area(),
                held(s.tool()),
                0,
            );
        },
        _ => {},
    }
}

/// A drag of an object may show it anywhere, but the histories stay in step with
/// where it was; and when the drag ends, nothing is shown where it is not.
pub proof fn lemma_drag_keeps_histories_in_step<S: Scalar, D: Drawable<S>, T: Tool<S, D>>(
    s: BoardState<S, D, T>,
    me: MouseEventMsg<S>,
    config: Configuration<S>,
)
    requires
        well_behaved::<S, D>(),
        s.wf(),
        s.area().consistent(),
        s.area().transform_session is Some,
        s.active_tool_type() is Pointer || (!s.active_text_editing()
            && !s.temporary_pointer_noop_drag),
        me.button is Primary,
        me.type_ is UpdateDrag || me.type_ is EndDrag,
    ensures
        ({
            let t = s.handle_pointer_object_event(InputEvent::Mouse(me), config).0;
            &&& t.area().consistent()
            &&& me.type_ is EndDrag ==> {
                &&& t.area().at_rest()
                &&& t.area().transform_session is None
            }
        }),
{
    lemma_drag_keeps_consistency(s.area(), me.pos);
}

} // verus!

//! What holds of the sketch board across messages.
use vstd::prelude::*;

use crate::configuration::{Action, Configuration};
use crate::femtovg_area::imp::lemma_topmost_body;
use crate::femtovg_area::laws::{
    lemma_redo_then_undo, lemma_text_edit_given_up, lemma_undo_then_redo, well_behaved,
};
use crate::femtovg_area::state::{centered, AreaState, SelectionFocusState};
use crate::math::{Scalar, Vec2D};
use crate::sketch_board::events::{
    InputEvent, KeyEventMsg, MouseEventMsg, SketchBoardInput, TextEventMsg, ToolbarEvent,
};
use crate::sketch_board::output::render_steps;
use crate::sketch_board::state::{spec_temporary_pointer_modifier, BoardState, CommandView};
use crate::style::StyleChange;
use crate::tools::{Drawable, Tool, ToolEvent, ToolUpdateResult, Tools};

verus! {

/// Whatever a tool hands out is put on the canvas: nothing is left to deliver.
pub proof fn lemma_results_are_normalized<S: Scalar, D: Drawable<S>, T: Tool<S, D>>(
    s: BoardState<S, D, T>,
    result: ToolUpdateResult<D>,
    config: Configuration<S>,
)
    ensures
        !s.apply_tool_update_result(result, config).1.delivers(),
{
}

/// An event that the objects take goes no further, and hands nothing out.
pub proof fn lemma_taken_event_stops<S: Scalar, D: Drawable<S>, T: Tool<S, D>>(
    s: BoardState<S, D, T>,
    event: InputEvent<S>,
    config: Configuration<S>,
)
    ensures
        s.handle_pointer_object_event(event, config).1 matches Some(result) ==> result.stops(),
{
}

/// While a text is edited, the mouse goes to the text tool: objects are neither
/// selected nor moved, and at most the cursor changes.
pub proof fn lemma_text_editing_is_undisturbed<S: Scalar, D: Drawable<S>, T: Tool<S, D>>(
    s: BoardState<S, D, T>,
    event: InputEvent<S>,
    config: Configuration<S>,
)
    requires
        s.active_text_editing(),
    ensures
        ({
            let (t, result) = s.handle_pointer_object_event(event, config);
            &&& result is None
            &&& t == s || t == s.with_cursor(None)
        }),
{
}

/// Text from the input method reaches the text tool while that takes text; no
/// character of it is taken for a shortcut.
pub proof fn lemma_text_is_no_shortcut<S: Scalar, D: Drawable<S>, T: Tool<S, D>>(
    s: BoardState<S, D, T>,
    event: TextEventMsg,
    config: Configuration<S>,
)
    requires
        s.active_text_editing(),
    ensures
        s.update(SketchBoardInput::CommitEvent(event), config) == (
            s,
            seq![
                CommandView::Input(SketchBoardInput::<S>::InputEvent(InputEvent::Text(event))),
            ],
        ),
{
}

/// Hovering changes nothing but the cursor.
pub proof fn lemma_hovering_changes_only_the_cursor<S: Scalar, D: Drawable<S>, T: Tool<S, D>>(
    s: BoardState<S, D, T>,
    event: MouseEventMsg<S>,
    config: Configuration<S>,
)
    requires
        event.type_ is PointerPos,
    ensures
        ({
            let (t, result) = s.handle_pointer_object_event(InputEvent::Mouse(event), config);
            &&& result is None
            &&& t == s.with_cursor(t.renderer.cursor)
        }),
{
}

/// The board after the objects saw a number of mouse events.
pub open spec fn after_mouse_events<S: Scalar, D: Drawable<S>, T: Tool<S, D>>(
    s: BoardState<S, D, T>,
    events: Seq<MouseEventMsg<S>>,
    config: Configuration<S>,
) -> BoardState<S, D, T>
    decreases events.len(),
{
    if events.len() == 0 {
        s
    } else {
        after_mouse_events(s, events.drop_last(), config).handle_pointer_object_event(
            InputEvent::Mouse(events.last()),
            config,
        ).0
    }
}

/// A drag with the temporary pointer that takes hold of nothing is swallowed to
/// its end: neither the objects nor the active tool see any of its steps, however
/// many there are, and whether or not the modifier is still held.
pub proof fn lemma_empty_drag_is_swallowed<S: Scalar, D: Drawable<S>, T: Tool<S, D>>(
    s: BoardState<S, D, T>,
    begin: MouseEventMsg<S>,
    steps: Seq<MouseEventMsg<S>>,
    end: MouseEventMsg<S>,
    config: Configuration<S>,
)
    requires
        s.active_tool_type() !is Pointer,
        !s.active_text_editing(),
        !s.temporary_pointer_noop_drag,
        s.area().transform_session is None,
        begin.type_ is BeginDrag,
        begin.button is Primary,
        spec_temporary_pointer_modifier(begin),
        s.area().temporary_hit(begin.pos) is None,
        forall|i: int|
            0 <= i < steps.len() ==> {
                &&& (#[trigger] steps[i]).type_ is UpdateDrag
                &&& steps[i].button is Primary
            },
        end.type_ is EndDrag,
        end.button is Primary,
        s.renderer.inner is Some,
    ensures
        ({
            let stop = Some(ToolUpdateResult::<D>::StopPropagation);
            let (begun, r0) = s.handle_pointer_object_event(InputEvent::Mouse(begin), config);
            let going = after_mouse_events(begun, steps, config);
            let (ended, r2) = going.handle_pointer_object_event(InputEvent::Mouse(end), config);
            &&& begun == (BoardState { temporary_pointer_noop_drag: true, ..s })
            &&& going == begun
            &&& ended == s
            &&& r0 == stop
            &&& forall|i: int|
                0 <= i < steps.len() ==> begun.handle_pointer_object_event(
                    InputEvent::Mouse(#[trigger] steps[i]),
                    config,
                ) == (begun, stop)
            &&& r2 == stop
        }),
    decreases steps.len(),
{
    let (begun, r0) = s.handle_pointer_object_event(InputEvent::Mouse(begin), config);
    assert(s.area().temporary_pointer_begin_drag(begin.pos).0 =~= s.area());
    assert(begun =~= (BoardState { temporary_pointer_noop_drag: true, ..s }));
    if steps.len() > 0 {
        let before = steps.drop_last();
        assert forall|i: int| 0 <= i < before.len() implies {
            &&& (#[trigger] before[i]).type_ is UpdateDrag
            &&& before[i].button is Primary
        } by {
            assert(before[i] == steps[i]);
        }
        lemma_empty_drag_is_swallowed(s, begin, before, end, config);
        assert(steps.last() == steps[steps.len() - 1]);
    }
}

/// A key that the active tool keeps is no shortcut: it changes nothing but the
/// tool, and at most the screen is redrawn.
pub proof fn lemma_kept_key_is_no_shortcut<S: Scalar, D: Drawable<S>, T: Tool<S, D>>(
    s: BoardState<S, D, T>,
    ke: KeyEventMsg,
    config: Configuration<S>,
)
    requires
        s.tool_event(ToolEvent::Input(InputEvent::Key(ke))).1.stops(),
    ensures
        ({
            let (seen, result) = s.tool_event(ToolEvent::Input(InputEvent::Key(ke)));
            let (t, commands) = s.update(
                SketchBoardInput::InputEvent(InputEvent::Key(ke)),
                config,
            );
            &&& commands == Seq::<CommandView<S>>::empty()
            &&& t == seen.redrawn(result)
        }),
{
}

/// What the board is like after the toolbar undid or redid a change of the canvas.
pub open spec fn canvas_changed<S: Scalar, D: Drawable<S>, T: Tool<S, D>>(
    s: BoardState<S, D, T>,
    area: AreaState<S, D>,
) -> BoardState<S, D, T> {
    s.with_area(area).with_cursor(None).redrawn(ToolUpdateResult::Redraw)
}

proof fn lemma_toolbar_undo<S: Scalar, D: Drawable<S>, T: Tool<S, D>>(
    s: BoardState<S, D, T>,
    config: Configuration<S>,
)
    requires
        !s.tool().spec_active(),
        s.area().undo().1,
    ensures
        s.update(SketchBoardInput::ToolbarEvent(ToolbarEvent::Undo), config).0 == canvas_changed(
            s,
            s.area().undo().0,
        ),
{
    let (t, result) = s.handle_toolbar_event(ToolbarEvent::Undo, config);
    assert((t, result) == s.handle_undo());
    assert(t == s.with_area(s.area().undo().0).with_cursor(None));
}

proof fn lemma_toolbar_redo<S: Scalar, D: Drawable<S>, T: Tool<S, D>>(
    s: BoardState<S, D, T>,
    config: Configuration<S>,
)
    requires
        !s.tool().spec_active(),
        s.area().redo().1,
    ensures
        s.update(SketchBoardInput::ToolbarEvent(ToolbarEvent::Redo), config).0 == canvas_changed(
            s,
            s.area().redo().0,
        ),
{
    let (t, result) = s.handle_toolbar_event(ToolbarEvent::Redo, config);
    assert((t, result) == s.handle_redo());
    assert(t == s.with_area(s.area().redo().0).with_cursor(None));
}

/// Undo and then redo on the toolbar give everything on the canvas back, with
/// nothing selected, as long as the active tool has no work in progress.
pub proof fn lemma_undo_then_redo_on_the_toolbar<S: Scalar, D: Drawable<S>, T: Tool<S, D>>(
    s: BoardState<S, D, T>,
    config: Configuration<S>,
)
    requires
        well_behaved::<S, D>(),
        s.wf(),
        !s.tool().spec_active(),
        s.area().consistent(),
        s.area().at_rest(),
        s.area().history.len() > 0,
    ensures
        ({
            let undone = s.update(
                SketchBoardInput::ToolbarEvent(ToolbarEvent::Undo),
                config,
            ).0;
            let redone = undone.update(
                SketchBoardInput::ToolbarEvent(ToolbarEvent::Redo),
                config,
            ).0;
            redone == canvas_changed(s, s.area().clear_target())
        }),
{
    lemma_undo_then_redo(s.area());
    lemma_toolbar_undo(s, config);
    let undone = canvas_changed(s, s.area().undo().0);
    assert(undone.tool() == s.tool());
    assert(undone.area() == s.area().undo().0);
    lemma_toolbar_redo(undone, config);
    assert(canvas_changed(undone, s.area().clear_target()) == canvas_changed(
        s,
        s.area().clear_target(),
    ));
}

/// Redo and then undo on the toolbar do so, too.
pub proof fn lemma_redo_then_undo_on_the_toolbar<S: Scalar, D: Drawable<S>, T: Tool<S, D>>(
    s: BoardState<S, D, T>,
    config: Configuration<S>,
)
    requires
        well_behaved::<S, D>(),
        s.wf(),
        !s.tool().spec_active(),
        s.area().consistent(),
        s.area().at_rest(),
        s.area().redo_history.len() > 0,
    ensures
        ({
            let redone = s.update(
                SketchBoardInput::ToolbarEvent(ToolbarEvent::Redo),
                config,
            ).0;
            let undone = redone.update(
                SketchBoardInput::ToolbarEvent(ToolbarEvent::Undo),
                config,
            ).0;
            undone == canvas_changed(s, s.area().clear_target())
        }),
{
    lemma_redo_then_undo(s.area());
    lemma_toolbar_redo(s, config);
    let redone = canvas_changed(s, s.area().redo().0);
    assert(redone.tool() == s.tool());
    assert(redone.area() == s.area().redo().0);
    lemma_toolbar_undo(redone, config);
    assert(canvas_changed(redone, s.area().clear_target()) == canvas_changed(
        s,
        s.area().clear_target(),
    ));
}

/// A text that the text tool does not take is back on the canvas after the double
/// click, in its old place, and the pointer is active again.
pub proof fn lemma_refused_text_edit_restores<S: Scalar, D: Drawable<S>, T: Tool<S, D>>(
    s: BoardState<S, D, T>,
    pos: Vec2D<S>,
)
    requires
        s.area().drawables.len() <= usize::MAX,
        s.area().take_text_edit_at(pos).1 is Some,
        forall|tool: T, drawable: D, index: usize|
            (#[trigger] tool.spec_start_existing_text_edit(drawable, index)).1
                == Err::<(), D>(drawable),
    ensures
        ({
            let (t, result) = s.text_edit_event(pos);
            &&& result == Some(ToolUpdateResult::<D>::RedrawAndStopPropagation)
            &&& t.area().drawables == s.area().drawables
            &&& t.area().history == s.area().history
            &&& t.active_tool is Pointer
        }),
{
    lemma_text_edit_given_up(s.area(), pos);
    lemma_topmost_body(s.area().drawables, pos, s.area().object_hit_tolerance());
}

/// Once a drawing tool is selected, no object is selected, and none is left that
/// a change of the style would reach.
pub proof fn lemma_drawing_tool_clears_target<S: Scalar, D: Drawable<S>, T: Tool<S, D>>(
    s: BoardState<S, D, T>,
    tool: Tools,
    config: Configuration<S>,
)
    requires
        s.wf(),
    ensures
        ({
            let t = s.select_tool(tool, config).0;
            t.area().active_tool !is Pointer ==> {
                &&& t.area().selection_focus == SelectionFocusState::nothing()
                &&& t.area().transform_session is None
            }
        }),
{
}

/// The buttons of the toolbar that set the scale center the image.
pub proof fn lemma_scale_buttons_center<S: Scalar, D: Drawable<S>, T: Tool<S, D>>(
    s: BoardState<S, D, T>,
    scale: int,
)
    ensures
        ({
            let t = s.handle_scale(scale).0;
            let canvas = Vec2D {
                x: S::spec_from_int(s.renderer.canvas_width as i64),
                y: S::spec_from_int(s.renderer.canvas_height as i64),
            };
            &&& t.area().offset == centered(s.area().image_size(), canvas, t.area().scale_factor)
            &&& t.area().drawables == s.area().drawables
            &&& t.renderer.request_render == Some(Seq::<Action>::empty())
        }),
{
}

/// While the active tool is drawing, a change of the style does not reach the
/// objects on the canvas.
pub proof fn lemma_style_goes_to_drawing_tool<S: Scalar, D: Drawable<S>, T: Tool<S, D>>(
    s: BoardState<S, D, T>,
    change: StyleChange<S>,
    config: Configuration<S>,
)
    requires
        s.tool().spec_has_drawable(),
    ensures
        s.apply_toolbar_style_change(change, config).0.renderer == s.renderer,
{
}

/// Nothing follows a step that ends the program or waits for a file name, and
/// without pixels nothing is copied or saved.
pub proof fn lemma_render_steps_stop<S>(
    has_pixbuf: bool,
    actions: Seq<Action>,
    config: Configuration<S>,
)
    ensures
        ({
            let steps = render_steps(has_pixbuf, actions, config);
            &&& forall|i: int|
                0 <= i < steps.len() - 1 ==> {
                    &&& #[trigger] steps[i] !is Exit
                    &&& steps[i] !is EarlyExit
                    &&& steps[i] !is SaveAs
                }
            &&& !has_pixbuf ==> forall|i: int|
                0 <= i < steps.len() ==> #[trigger] steps[i] is CopyFilepath || steps[i] is Exit
        }),
    decreases actions.len(),
{
    if actions.len() > 0 {
        lemma_render_steps_stop(has_pixbuf, actions.skip(1), config);
    }
}

} // verus!

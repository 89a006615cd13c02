//! The line tool, and the lines that it draws.
use vstd::prelude::*;

use crate::math::{Scalar, Vec2D};
use crate::sketch_board::events::{
    InputEvent, KeyEventMsg, MouseButton, MouseEventMsg, MouseEventType, SHIFT_MASK,
};
use crate::sketch_board::keys::KEY_ESCAPE;
use crate::style::{Style, StyleChange};
use crate::tools::edit::{
    point_near_segment, spec_point_near_segment, EditHandle, ObjectBounds,
};
use crate::tools::{Drawable, Tool, ToolEvent, ToolUpdateResult, Tools};

verus! {

/// A straight line. It has no direction, and is not drawn, until the mouse moves.
#[derive(Clone, Copy, Debug)]
pub struct Line<S> {
    pub start: Vec2D<S>,
    pub direction: Option<Vec2D<S>>,
    pub style: Style<S>,
}

#[derive(Clone, Copy, Debug)]
pub struct LineTool<S> {
    pub line: Option<Line<S>>,
    pub style: Style<S>,
    pub input_enabled: bool,
}

impl<S: Scalar> Line<S> {
    /// Where the line ends, once it has a direction.
    pub open spec fn end(self) -> Vec2D<S> {
        self.start.spec_plus(self.direction->0)
    }

    /// The two points that `draw` connects; none while the line has no direction.
    pub fn segment(&self) -> (r: Option<(Vec2D<S>, Vec2D<S>)>)
        ensures
            r == match self.direction {
                None => None,
                Some(_) => Some((self.start, self.end())),
            },
    {
        match self.direction {
            None => None,
            Some(direction) => Some((self.start, self.start.plus(direction))),
        }
    }
}

impl<S: Scalar> Drawable<S> for Line<S> {
    open spec fn spec_edit_bounds(self) -> Option<ObjectBounds<S>> {
        match self.direction {
            None => None,
            Some(_) => Some(ObjectBounds::spec_from_points(self.start, self.end())),
        }
    }

    /// A line is dragged by its two ends; one without a direction has no handles.
    open spec fn spec_handle_count(self) -> usize {
        if self.direction is Some {
            2
        } else {
            0
        }
    }

    open spec fn spec_handle_at(self, i: usize) -> (EditHandle, Vec2D<S>) {
        if i == 0 {
            (EditHandle::Start, self.start)
        } else {
            (EditHandle::End, self.end())
        }
    }

    open spec fn spec_hit_test(self, pos: Vec2D<S>, tolerance: S) -> bool {
        self.direction is Some && spec_point_near_segment(pos, self.start, self.end(), tolerance)
    }

    open spec fn spec_move_by(self, delta: Vec2D<S>) -> (Self, bool) {
        if self.direction is None || delta.spec_is_zero() {
            (self, false)
        } else {
            (Line { start: self.start.spec_plus(delta), ..self }, true)
        }
    }

    /// The end that is not dragged stays where it is.
    open spec fn spec_resize(self, handle: EditHandle, delta: Vec2D<S>) -> (Self, bool) {
        if self.direction is None || delta.spec_is_zero() || handle.on_box() {
            (self, false)
        } else if handle is Start {
            let start = self.start.spec_plus(delta);
            (Line { start, direction: Some(self.end().spec_minus(start)), ..self }, true)
        } else {
            (Line { direction: Some(self.direction->0.spec_plus(delta)), ..self }, true)
        }
    }

    open spec fn spec_apply_style_change(self, change: StyleChange<S>) -> (Self, bool) {
        (self, false)
    }

    open spec fn spec_supports_text_edit(self) -> bool {
        false
    }

    open spec fn spec_edit_snapshot(self) -> Self {
        self
    }

    open spec fn spec_handle_undo(self) -> Self {
        self
    }

    open spec fn spec_handle_redo(self) -> Self {
        self
    }

    open spec fn spec_invalidate_edit_cache(self) -> Self {
        self
    }

    open spec fn spec_begin_edit_session(self) -> Self {
        self
    }

    open spec fn spec_end_edit_session(self) -> Self {
        self
    }

    fn edit_bounds(&self) -> (r: Option<ObjectBounds<S>>) {
        match self.direction {
            None => None,
            Some(direction) => Some(
                ObjectBounds::from_points(self.start, self.start.plus(direction)),
            ),
        }
    }

    fn edit_handles(&self) -> (r: Vec<(EditHandle, Vec2D<S>)>) {
        let mut handles: Vec<(EditHandle, Vec2D<S>)> = Vec::new();
        if let Some(direction) = self.direction {
            handles.push((EditHandle::Start, self.start));
            handles.push((EditHandle::End, self.start.plus(direction)));
        }
        assert(handles@ =~= Seq::new(
            self.spec_handle_count() as nat,
            |i: int| self.spec_handle_at(i as usize),
        ));
        handles
    }

    fn hit_test(&self, pos: Vec2D<S>, tolerance: S) -> (r: bool) {
        match self.direction {
            None => false,
            Some(direction) => point_near_segment(
                pos,
                self.start,
                self.start.plus(direction),
                tolerance,
            ),
        }
    }

    fn move_by(&mut self, delta: Vec2D<S>) -> (r: bool) {
        if self.direction.is_none() || delta.is_zero() {
            return false;
        }
        self.start = self.start.plus(delta);
        true
    }

    fn resize(&mut self, handle: EditHandle, delta: Vec2D<S>) -> (r: bool) {
        let Some(direction) = self.direction else {
            return false;
        };
        if delta.is_zero() {
            return false;
        }
        match handle {
            EditHandle::Start => {
                let end = self.start.plus(direction);
                self.start = self.start.plus(delta);
                self.direction = Some(end.minus(self.start));
            },
            EditHandle::End => {
                self.direction = Some(direction.plus(delta));
            },
            _ => {
                return false;
            },
        }
        true
    }

    fn apply_style_change(&mut self, change: StyleChange<S>) -> (r: bool) {
        false
    }

    fn supports_text_edit(&self) -> (r: bool) {
        false
    }

    fn edit_snapshot(&self) -> (r: Self) {
        *self
    }

    fn handle_undo(&mut self) {
    }

    fn handle_redo(&mut self) {
    }

    fn invalidate_edit_cache(&mut self) {
    }

    fn begin_edit_session(&mut self) {
    }

    fn end_edit_session(&mut self) {
    }
}

/// The direction that a drag gives to a line: to the pointer, or to the nearest
/// multiple of 15 degrees while shift is held.
pub open spec fn drag_direction<S: Scalar>(event: MouseEventMsg<S>) -> Vec2D<S> {
    if event.modifier.spec_intersects(SHIFT_MASK) {
        event.pos.spec_snapped_vector_15deg()
    } else {
        event.pos
    }
}

impl<S: Scalar> LineTool<S> {
    /// A drag with any button but the middle one draws a line: it starts where
    /// the drag begins, follows the pointer, and is committed at the end unless
    /// the pointer came back to the start.
    pub open spec fn spec_handle_mouse_event(self, event: MouseEventMsg<S>) -> (
        Self,
        ToolUpdateResult<Line<S>>,
    ) {
        if event.button is Middle {
            (self, ToolUpdateResult::Unmodified)
        } else if event.type_ is BeginDrag {
            let line = Line { start: event.pos, direction: None, style: self.style };
            (LineTool { line: Some(line), ..self }, ToolUpdateResult::Redraw)
        } else if self.line is None || !(event.type_ is UpdateDrag || event.type_ is EndDrag) {
            (self, ToolUpdateResult::Unmodified)
        } else {
            let line = Line { direction: Some(drag_direction(event)), ..self.line->0 };
            if event.type_ is UpdateDrag {
                (LineTool { line: Some(line), ..self }, ToolUpdateResult::Redraw)
            } else if event.pos.spec_is_zero() {
                (LineTool { line: None, ..self }, ToolUpdateResult::Redraw)
            } else {
                (LineTool { line: None, ..self }, ToolUpdateResult::Commit(line))
            }
        }
    }

    /// Escape drops the line that is being drawn.
    pub open spec fn spec_handle_key_event(self, event: KeyEventMsg) -> (
        Self,
        ToolUpdateResult<Line<S>>,
    ) {
        if event.key == KEY_ESCAPE && self.line is Some {
            (LineTool { line: None, ..self }, ToolUpdateResult::Redraw)
        } else {
            (self, ToolUpdateResult::Unmodified)
        }
    }

    pub fn new(style: Style<S>) -> (r: Self)
        ensures
            r == (LineTool { line: None, style, input_enabled: false }),
    {
        LineTool { line: None, style, input_enabled: false }
    }

    pub fn set_input_enabled(&mut self, value: bool)
        ensures
            *final(self) == (LineTool { input_enabled: value, ..*old(self) }),
    {
        self.input_enabled = value;
    }

    pub fn handle_mouse_event(&mut self, event: MouseEventMsg<S>) -> (r: ToolUpdateResult<Line<S>>)
        ensures
            (*final(self), r) == old(self).spec_handle_mouse_event(event),
    {
        match event.type_ {
            MouseEventType::BeginDrag => {
                if event.button == MouseButton::Middle {
                    return ToolUpdateResult::Unmodified;
                }
                self.line = Some(Line { start: event.pos, direction: None, style: self.style });
                ToolUpdateResult::Redraw
            },
            MouseEventType::EndDrag => {
                if event.button == MouseButton::Middle {
                    return ToolUpdateResult::Unmodified;
                }
                if let Some(line) = self.line {
                    self.line = None;
                    if event.pos.is_zero() {
                        ToolUpdateResult::Redraw
                    } else {
                        let direction = Self::direction_of(event);
                        ToolUpdateResult::Commit(
                            Line {
                                start: line.start,
                                direction: Some(direction),
                                style: line.style,
                            },
                        )
                    }
                } else {
                    ToolUpdateResult::Unmodified
                }
            },
            MouseEventType::UpdateDrag => {
                if event.button == MouseButton::Middle {
                    return ToolUpdateResult::Unmodified;
                }
                if let Some(line) = self.line {
                    let direction = Self::direction_of(event);
                    self.line = Some(
                        Line { start: line.start, direction: Some(direction), style: line.style },
                    );
                    ToolUpdateResult::Redraw
                } else {
                    ToolUpdateResult::Unmodified
                }
            },
            _ => ToolUpdateResult::Unmodified,
        }
    }

    fn direction_of(event: MouseEventMsg<S>) -> (r: Vec2D<S>)
        ensures
            r == drag_direction(event),
    {
        if event.modifier.intersects(SHIFT_MASK) {
            event.pos.snapped_vector_15deg()
        } else {
            event.pos
        }
    }

    pub fn handle_key_event(&mut self, event: KeyEventMsg) -> (r: ToolUpdateResult<Line<S>>)
        ensures
            (*final(self), r) == old(self).spec_handle_key_event(event),
    {
        if event.key == KEY_ESCAPE && self.line.is_some() {
            self.line = None;
            ToolUpdateResult::Redraw
        } else {
            ToolUpdateResult::Unmodified
        }
    }

    pub fn handle_style_event(&mut self, style: Style<S>) -> (r: ToolUpdateResult<Line<S>>)
        ensures
            *final(self) == (LineTool { style, ..*old(self) }),
            r == ToolUpdateResult::<Line<S>>::Unmodified,
    {
        self.style = style;
        ToolUpdateResult::Unmodified
    }

    /// The line that is being drawn.
    pub fn get_drawable(&self) -> (r: Option<&Line<S>>)
        ensures
            r == match self.line {
                Some(line) => Some(&line),
                None => None,
            },
    {
        match &self.line {
            Some(line) => Some(line),
            None => None,
        }
    }
}

impl<S: Scalar> Tool<S, Line<S>> for LineTool<S> {
    open spec fn spec_active(self) -> bool {
        false
    }

    open spec fn spec_input_enabled(self) -> bool {
        self.input_enabled
    }

    open spec fn spec_has_drawable(self) -> bool {
        self.line is Some
    }

    open spec fn spec_get_tool_type(self) -> Tools {
        Tools::Line
    }

    open spec fn spec_handle_event(self, event: ToolEvent<S>) -> (Self, ToolUpdateResult<Line<S>>) {
        match event {
            ToolEvent::Input(InputEvent::Mouse(e)) => self.spec_handle_mouse_event(e),
            ToolEvent::Input(InputEvent::Key(e)) => self.spec_handle_key_event(e),
            ToolEvent::StyleChanged(style) => (
                LineTool { style, ..self },
                ToolUpdateResult::Unmodified,
            ),
            _ => (self, ToolUpdateResult::Unmodified),
        }
    }

    open spec fn spec_handle_deactivated(self) -> (Self, ToolUpdateResult<Line<S>>) {
        (self, ToolUpdateResult::Unmodified)
    }

    open spec fn spec_handle_undo(self) -> (Self, ToolUpdateResult<Line<S>>) {
        (self, ToolUpdateResult::Unmodified)
    }

    open spec fn spec_handle_redo(self) -> (Self, ToolUpdateResult<Line<S>>) {
        (self, ToolUpdateResult::Unmodified)
    }

    open spec fn spec_set_im_context(self, attached: bool) -> Self {
        self
    }

    open spec fn spec_set_sender(self) -> Self {
        self
    }

    open spec fn spec_start_existing_text_edit(self, drawable: Line<S>, index: usize) -> (
        Self,
        Result<(), Line<S>>,
    ) {
        (self, Err(drawable))
    }

    fn active(&self) -> (r: bool) {
        false
    }

    fn input_enabled(&self) -> (r: bool) {
        self.input_enabled
    }

    fn has_drawable(&self) -> (r: bool) {
        self.line.is_some()
    }

    fn get_tool_type(&self) -> (r: Tools) {
        Tools::Line
    }

    fn handle_event(&mut self, event: &ToolEvent<S>) -> (r: ToolUpdateResult<Line<S>>) {
        match event {
            ToolEvent::Input(InputEvent::Mouse(e)) => self.handle_mouse_event(*e),
            ToolEvent::Input(InputEvent::Key(e)) => self.handle_key_event(*e),
            ToolEvent::StyleChanged(style) => self.handle_style_event(*style),
            _ => ToolUpdateResult::Unmodified,
        }
    }

    fn handle_deactivated(&mut self) -> (r: ToolUpdateResult<Line<S>>) {
        ToolUpdateResult::Unmodified
    }

    fn handle_undo(&mut self) -> (r: ToolUpdateResult<Line<S>>) {
        ToolUpdateResult::Unmodified
    }

    fn handle_redo(&mut self) -> (r: ToolUpdateResult<Line<S>>) {
        ToolUpdateResult::Unmodified
    }

    fn set_im_context(&mut self, attached: bool) {
    }

    fn set_sender(&mut self) {
    }

    fn start_existing_text_edit(&mut self, drawable: Line<S>, index: usize) -> (r: Result<
        (),
        Line<S>,
    >) {
        Err(drawable)
    }
}

/// The tool after a number of events.
pub open spec fn after_events<S: Scalar>(tool: LineTool<S>, events: Seq<ToolEvent<S>>) -> LineTool<
    S,
>
    decreases events.len(),
{
    if events.len() == 0 {
        tool
    } else {
        after_events(tool, events.drop_last()).spec_handle_event(events.last()).0
    }
}

/// The style that the latest of the events set, or else `style`.
pub open spec fn latest_style<S>(style: Style<S>, events: Seq<ToolEvent<S>>) -> Style<S>
    decreases events.len(),
{
    if events.len() == 0 {
        style
    } else if let ToolEvent::StyleChanged(changed) = events.last() {
        changed
    } else {
        latest_style(style, events.drop_last())
    }
}

/// The event neither ends a drag nor begins another one, nor drops the line.
pub open spec fn lets_drag_go_on<S>(event: ToolEvent<S>) -> bool {
    match event {
        ToolEvent::Input(InputEvent::Mouse(e)) => e.button is Middle || !(e.type_ is BeginDrag
            || e.type_ is EndDrag),
        ToolEvent::Input(InputEvent::Key(e)) => e.key != KEY_ESCAPE,
        _ => true,
    }
}

/// What a drag in progress shows changes, but not where the line starts nor its
/// style.
proof fn lemma_drag_goes_on<S: Scalar>(tool: LineTool<S>, events: Seq<ToolEvent<S>>)
    requires
        tool.line is Some,
        forall|i: int| 0 <= i < events.len() ==> lets_drag_go_on(#[trigger] events[i]),
    ensures
        ({
            let going = after_events(tool, events);
            &&& going.line is Some
            &&& going.line->0.start == tool.line->0.start
            &&& going.line->0.style == tool.line->0.style
            &&& going.style == latest_style(tool.style, events)
            &&& going.input_enabled == tool.input_enabled
        }),
    decreases events.len(),
{
    if events.len() > 0 {
        let before = events.drop_last();
        assert forall|i: int| 0 <= i < before.len() implies lets_drag_go_on(
            #[trigger] before[i],
        ) by {
            assert(before[i] == events[i]);
        }
        lemma_drag_goes_on(tool, before);
        assert(lets_drag_go_on(events[events.len() - 1]));
    }
}

/// A drag with any button but the middle one draws a line from where it begins to
/// where it ends, in the style that was set when it began, whatever it shows and
/// whatever style is set meanwhile; and leaves nothing behind in the tool. One
/// that comes back to its beginning draws nothing.
pub proof fn lemma_drag_draws_line<S: Scalar>(
    tool: LineTool<S>,
    begin: MouseEventMsg<S>,
    events: Seq<ToolEvent<S>>,
    end: MouseEventMsg<S>,
)
    requires
        begin.type_ is BeginDrag,
        begin.button !is Middle,
        forall|i: int| 0 <= i < events.len() ==> lets_drag_go_on(#[trigger] events[i]),
        end.type_ is EndDrag,
        end.button !is Middle,
    ensures
        ({
            let started = tool.spec_handle_mouse_event(begin).0;
            let (ended, result) = after_events(started, events).spec_handle_mouse_event(end);
            &&& ended == (LineTool {
                line: None,
                style: latest_style(tool.style, events),
                ..tool
            })
            &&& result == if end.pos.spec_is_zero() {
                ToolUpdateResult::Redraw
            } else {
                ToolUpdateResult::Commit(
                    Line {
                        start: begin.pos,
                        direction: Some(drag_direction(end)),
                        style: tool.style,
                    },
                )
            }
        }),
{
    lemma_drag_goes_on(tool.spec_handle_mouse_event(begin).0, events);
}

/// Escape drops the line that is being drawn, so that nothing of the drag is left; other
/// keys do nothing.
pub proof fn lemma_escape_drops_the_line<S: Scalar>(
    tool: LineTool<S>,
    key: KeyEventMsg,
    end: MouseEventMsg<S>,
)
    requires
        end.type_ is EndDrag,
    ensures
        ({
            let (after, result) = tool.spec_handle_key_event(key);
            let ended = after.spec_handle_mouse_event(end);
            &&& key.key == 0xff1b ==> {
                &&& after.line is None
                &&& ended == (after, ToolUpdateResult::<Line<S>>::Unmodified)
                &&& result is Redraw <==> tool.line is Some
            }
            &&& key.key != 0xff1b ==> after == tool && result is Unmodified
            &&& !result.delivers()
            &&& after.style == tool.style
        }),
{
}

/// Shift turns a line to the nearest multiple of 15 degrees, and other modifiers do not.
pub proof fn lemma_shift_turns_the_line<S: Scalar>(event: MouseEventMsg<S>)
    ensures
        event.modifier.bits & 1 != 0 ==> {
            let (x, y) = S::spec_snap_direction(event.pos.x, event.pos.y);
            drag_direction(event) == (Vec2D { x, y })
        },
        event.modifier.bits & 1 == 0 ==> drag_direction(event) == event.pos,
{
}

} // verus!

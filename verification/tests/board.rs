use satty::configuration::{Action, Configuration, Keybinds};
use satty::femtovg_area::background::{Layer, TransparencyStep};
use satty::femtovg_area::state::PointerCursor;
use satty::fixed::Fixed;
use satty::math::{Scalar, Vec2D};
use satty::sketch_board::board::{temporary_pointer_modifier, Command, SketchBoard};
use satty::sketch_board::events::{
    InputEvent, KeyEventMsg, ModifierType, MouseButton, MouseEventMsg, MouseEventType,
    SketchBoardInput, SketchBoardOutput, TextEventMsg, ToolbarEvent, ALT_MASK, BUTTON1_MASK,
    CONTROL_MASK, SHIFT_MASK,
};
use satty::sketch_board::image::{RenderedImage, Rgba};
use satty::sketch_board::keys::{
    KEY_C, KEY_D, KEY_DELETE, KEY_DOWN, KEY_ESCAPE, KEY_I, KEY_KP_ENTER, KEY_LEFT, KEY_RETURN,
    KEY_RIGHT, KEY_S, KEY_T, KEY_UP, KEY_Y, KEY_Z,
};
use satty::sketch_board::output::RenderStep;
use satty::style::{Color, Size, Style, StyleChange};
use satty::tools::edit::{box_handles, resize_box, EditHandle, ObjectBounds};
use satty::tools::{Drawable, Tool, ToolEvent, ToolUpdateResult, Tools};

const BLACK: Color = Color { r: 0, g: 0, b: 0, a: 255 };
const BLUE: Color = Color { r: 0, g: 0, b: 255, a: 255 };

fn at(x: i64, y: i64) -> Vec2D<Fixed> {
    Vec2D::new(Fixed::from_int(x), Fixed::from_int(y))
}

/// A box of 100 by 100 pixels.
#[derive(Clone, Copy, Debug, PartialEq)]
struct Mark {
    bounds: ObjectBounds<Fixed>,
    color: Color,
    is_text: bool,
}

impl Mark {
    fn new(x: i64, is_text: bool) -> Self {
        Mark { bounds: ObjectBounds::new(at(x, 0), at(100, 100)), color: BLACK, is_text }
    }
}

impl Drawable<Fixed> for Mark {
    fn edit_bounds(&self) -> Option<ObjectBounds<Fixed>> {
        Some(self.bounds)
    }
    fn edit_handles(&self) -> Vec<(EditHandle, Vec2D<Fixed>)> {
        box_handles(self.bounds)
    }
    fn hit_test(&self, pos: Vec2D<Fixed>, tolerance: Fixed) -> bool {
        self.bounds.contains(pos, tolerance)
    }
    fn move_by(&mut self, delta: Vec2D<Fixed>) -> bool {
        self.bounds.top_left = self.bounds.top_left.plus(delta);
        !delta.is_zero()
    }
    fn resize(&mut self, handle: EditHandle, delta: Vec2D<Fixed>) -> bool {
        self.bounds = resize_box(self.bounds, handle, delta);
        !delta.is_zero()
    }
    fn apply_style_change(&mut self, change: StyleChange<Fixed>) -> bool {
        match change {
            StyleChange::Color(color) => {
                self.color = color;
                true
            }
            _ => false,
        }
    }
    fn supports_text_edit(&self) -> bool {
        self.is_text
    }
    fn edit_snapshot(&self) -> Self {
        *self
    }
    fn handle_undo(&mut self) {}
    fn handle_redo(&mut self) {}
    fn invalidate_edit_cache(&mut self) {}
    fn begin_edit_session(&mut self) {}
    fn end_edit_session(&mut self) {}

    fn spec_edit_bounds(self) -> Option<ObjectBounds<Fixed>> {
        unreachable!()
    }
    fn spec_handle_count(self) -> usize {
        unreachable!()
    }
    fn spec_handle_at(self, _i: usize) -> (EditHandle, Vec2D<Fixed>) {
        unreachable!()
    }
    fn spec_hit_test(self, _pos: Vec2D<Fixed>, _tolerance: Fixed) -> bool {
        unreachable!()
    }
    fn spec_move_by(self, _delta: Vec2D<Fixed>) -> (Self, bool) {
        unreachable!()
    }
    fn spec_resize(self, _handle: EditHandle, _delta: Vec2D<Fixed>) -> (Self, bool) {
        unreachable!()
    }
    fn spec_apply_style_change(self, _change: StyleChange<Fixed>) -> (Self, bool) {
        unreachable!()
    }
    fn spec_supports_text_edit(self) -> bool {
        unreachable!()
    }
    fn spec_edit_snapshot(self) -> Self {
        unreachable!()
    }
    fn spec_handle_undo(self) -> Self {
        unreachable!()
    }
    fn spec_handle_redo(self) -> Self {
        unreachable!()
    }
    fn spec_invalidate_edit_cache(self) -> Self {
        unreachable!()
    }
    fn spec_begin_edit_session(self) -> Self {
        unreachable!()
    }
    fn spec_end_edit_session(self) -> Self {
        unreachable!()
    }
}

/// A tool that answers every event with what was put in for it.
struct Probe {
    kind: Tools,
    active: bool,
    input_enabled: bool,
    drawing: bool,
    im_context: bool,
    has_sender: bool,
    takes_texts: bool,
    text: Option<(usize, Mark)>,
    style: Option<Style<Fixed>>,
    events: usize,
    answers: Vec<ToolUpdateResult<Mark>>,
}

impl Probe {
    fn new(kind: Tools) -> Self {
        Probe {
            kind,
            active: false,
            input_enabled: false,
            drawing: false,
            im_context: false,
            has_sender: false,
            takes_texts: true,
            text: None,
            style: None,
            events: 0,
            answers: Vec::new(),
        }
    }

    fn answer(&mut self) -> ToolUpdateResult<Mark> {
        self.answers.pop().unwrap_or(ToolUpdateResult::Unmodified)
    }
}

impl Tool<Fixed, Mark> for Probe {
    fn active(&self) -> bool {
        self.active
    }
    fn input_enabled(&self) -> bool {
        self.input_enabled
    }
    fn has_drawable(&self) -> bool {
        self.drawing
    }
    fn get_tool_type(&self) -> Tools {
        self.kind
    }
    fn handle_event(&mut self, event: &ToolEvent<Fixed>) -> ToolUpdateResult<Mark> {
        if let ToolEvent::StyleChanged(style) = event {
            self.style = Some(*style);
            return ToolUpdateResult::Unmodified;
        }
        self.events += 1;
        self.answer()
    }
    fn handle_deactivated(&mut self) -> ToolUpdateResult<Mark> {
        self.active = false;
        self.answer()
    }
    fn handle_undo(&mut self) -> ToolUpdateResult<Mark> {
        self.answer()
    }
    fn handle_redo(&mut self) -> ToolUpdateResult<Mark> {
        self.answer()
    }
    fn set_im_context(&mut self, attached: bool) {
        self.im_context = attached;
    }
    fn set_sender(&mut self) {
        self.has_sender = true;
    }
    fn start_existing_text_edit(&mut self, drawable: Mark, index: usize) -> Result<(), Mark> {
        if self.takes_texts {
            self.text = Some((index, drawable));
            self.input_enabled = true;
            Ok(())
        } else {
            Err(drawable)
        }
    }
    fn spec_active(self) -> bool {
        unreachable!()
    }
    fn spec_input_enabled(self) -> bool {
        unreachable!()
    }
    fn spec_has_drawable(self) -> bool {
        unreachable!()
    }
    fn spec_get_tool_type(self) -> Tools {
        unreachable!()
    }
    fn spec_handle_event(self, _event: ToolEvent<Fixed>) -> (Self, ToolUpdateResult<Mark>) {
        unreachable!()
    }
    fn spec_handle_deactivated(self) -> (Self, ToolUpdateResult<Mark>) {
        unreachable!()
    }
    fn spec_handle_undo(self) -> (Self, ToolUpdateResult<Mark>) {
        unreachable!()
    }
    fn spec_handle_redo(self) -> (Self, ToolUpdateResult<Mark>) {
        unreachable!()
    }
    fn spec_set_im_context(self, _attached: bool) -> Self {
        unreachable!()
    }
    fn spec_set_sender(self) -> Self {
        unreachable!()
    }
    fn spec_start_existing_text_edit(
        self,
        _drawable: Mark,
        _index: usize,
    ) -> (Self, Result<(), Mark>) {
        unreachable!()
    }
}

type Board = SketchBoard<Fixed, Mark, Probe>;

fn config() -> Configuration<Fixed> {
    Configuration {
        initial_tool: Tools::Pointer,
        input_scale: None,
        zoom_factor: Fixed::from_int(2),
        pan_step_size: Fixed::from_int(50),
        auto_copy: false,
        early_exit: false,
        early_exit_save_as: false,
        save_after_copy: false,
        disable_notifications: false,
        copy_command: None,
        output_filename: None,
        actions_on_right_click: vec![Action::SaveToClipboard],
        actions_on_escape: vec![Action::Exit],
        actions_on_enter: vec![Action::SaveToFile, Action::Exit],
        keybinds: Keybinds { shortcuts: vec![('p', Tools::Pointer), ('l', Tools::Line)] },
    }
}

fn style() -> Style<Fixed> {
    Style {
        color: BLACK,
        size: Size::Medium,
        fill: false,
        annotation_size_factor: Fixed::from_int(1),
    }
}

/// A board with an image of 400 by 400 pixels on a canvas of the same size.
fn board_with(config: &Configuration<Fixed>) -> Board {
    let kinds = [
        Tools::Pointer,
        Tools::Crop,
        Tools::Brush,
        Tools::Line,
        Tools::Arrow,
        Tools::Rectangle,
        Tools::Ellipse,
        Tools::Text,
        Tools::Marker,
        Tools::Blur,
        Tools::Highlight,
    ];
    for (i, kind) in kinds.iter().enumerate() {
        assert_eq!(kind.slot(), i);
    }
    let tools = kinds.iter().map(|kind| Probe::new(*kind)).collect();
    let mut board = SketchBoard::init(1, 400, 400, tools, style(), config);
    board.renderer.resize(400, 400);
    board.renderer.take_render_request();
    board
}

fn board() -> Board {
    board_with(&config())
}

fn tool(board: &mut Board, kind: Tools) -> &mut Probe {
    &mut board.tools[kind.slot()]
}

fn marks(board: &Board) -> &Vec<Mark> {
    &board.renderer.inner.as_ref().unwrap().drawables
}

fn commit(board: &mut Board, mark: Mark) {
    board.renderer.commit(mark);
}

fn send(board: &mut Board, msg: SketchBoardInput<Fixed>) -> Vec<Command<Fixed>> {
    board.update(msg, &config())
}

fn mouse(
    board: &mut Board,
    type_: MouseEventType,
    button: u32,
    n_pressed: i32,
    mask: u32,
    pos: Vec2D<Fixed>,
) {
    let modifier = ModifierType { bits: mask };
    let msg = SketchBoardInput::new_mouse_event(type_, button, n_pressed, modifier, pos, false);
    assert!(send(board, msg).is_empty());
}

fn key(board: &mut Board, key: u32, code: u32, mask: u32) -> Vec<Command<Fixed>> {
    let event = KeyEventMsg::new(key, code, ModifierType { bits: mask });
    send(board, SketchBoardInput::new_key_event(event))
}

fn toolbar(board: &mut Board, event: ToolbarEvent<Fixed>) {
    assert!(send(board, SketchBoardInput::ToolbarEvent(event)).is_empty());
}

fn requested(board: &Board) -> Option<Vec<Action>> {
    board.renderer.request_render.clone()
}

#[test]
fn temporary_pointer_modifier_uses_contains() {
    let event = MouseEventMsg {
        type_: MouseEventType::BeginDrag,
        button: MouseButton::Primary,
        modifier: ModifierType { bits: CONTROL_MASK | BUTTON1_MASK },
        pos: Vec2D::<Fixed>::zero(),
        n_pressed: 1,
        release: false,
    };

    assert!(temporary_pointer_modifier(&event));
}

#[test]
fn temporary_pointer_needs_control() {
    let event = MouseEventMsg {
        type_: MouseEventType::BeginDrag,
        button: MouseButton::Primary,
        modifier: ModifierType { bits: SHIFT_MASK | ALT_MASK },
        pos: Vec2D::<Fixed>::zero(),
        n_pressed: 1,
        release: false,
    };

    assert!(!temporary_pointer_modifier(&event));
}

#[test]
fn initial_tool_is_connected_to_the_input_method() {
    let mut config = config();
    config.initial_tool = Tools::Text;
    let mut board = board_with(&config);
    assert_eq!(board.active_tool_type(), Tools::Text);
    assert!(tool(&mut board, Tools::Text).im_context);
    assert!(!tool(&mut board, Tools::Pointer).im_context);
}

#[test]
fn mouse_buttons_are_told_apart_by_number() {
    assert_eq!(MouseButton::from(1), MouseButton::Primary);
    assert_eq!(MouseButton::from(2), MouseButton::Middle);
    assert_eq!(MouseButton::from(3), MouseButton::Secondary);
    assert_eq!(MouseButton::from(9), MouseButton::Primary);
    assert!(MouseButton::Primary < MouseButton::Middle);
}

#[test]
fn selecting_a_tool_sets_it_up() {
    let mut board = board();
    commit(&mut board, Mark::new(0, false));
    tool(&mut board, Tools::Pointer).answers =
        vec![ToolUpdateResult::Commit(Mark::new(200, false))];
    toolbar(&mut board, ToolbarEvent::ToolSelected(Tools::Line));
    assert_eq!(marks(&board).len(), 2);
    assert_eq!(board.active_tool_type(), Tools::Line);
    assert!(!tool(&mut board, Tools::Pointer).im_context);
    let line = tool(&mut board, Tools::Line);
    assert!(line.im_context && line.has_sender);
    assert_eq!(line.style, Some(style()));
    assert_eq!(line.events, 1);
    let focus = board.renderer.inner.as_ref().unwrap().selection_focus;
    assert_eq!((focus.selected, focus.focused), (None, None));
    assert!(board.renderer.render_queued);
}

#[test]
fn modified_object_brings_the_pointer_back() {
    let mut board = board();
    toolbar(&mut board, ToolbarEvent::ToolSelected(Tools::Text));
    let (before, after) = (Mark::new(0, true), Mark::new(50, true));
    tool(&mut board, Tools::Text).answers =
        vec![ToolUpdateResult::Modify { index: 0, before, after }];
    key(&mut board, KEY_RETURN, 36, SHIFT_MASK);
    assert_eq!(marks(&board), &vec![after]);
    assert_eq!(board.active_tool_type(), Tools::Pointer);
    assert!(!tool(&mut board, Tools::Text).im_context);
    toolbar(&mut board, ToolbarEvent::Undo);
    assert_eq!(marks(&board), &vec![before]);
}

#[test]
fn restored_object_is_no_change() {
    let mut board = board();
    toolbar(&mut board, ToolbarEvent::ToolSelected(Tools::Text));
    let drawable = Mark::new(0, true);
    tool(&mut board, Tools::Text).answers =
        vec![ToolUpdateResult::Restore { index: 0, drawable }];
    key(&mut board, KEY_ESCAPE, 9, 0);
    assert_eq!(marks(&board), &vec![drawable]);
    assert_eq!(board.active_tool_type(), Tools::Pointer);
    assert!(board.renderer.inner.as_ref().unwrap().history.is_empty());
    assert_eq!(requested(&board), None);
}

#[test]
fn undo_and_redo_by_symbol_and_by_place() {
    let mut board = board();
    commit(&mut board, Mark::new(0, false));
    key(&mut board, KEY_Z, 52, CONTROL_MASK);
    assert!(marks(&board).is_empty());
    key(&mut board, KEY_Y, 52, CONTROL_MASK);
    assert_eq!(marks(&board).len(), 1);
    key(&mut board, 0x6da, 0x2c + 8, CONTROL_MASK);
    assert!(marks(&board).is_empty());
    key(&mut board, 0x6da, 0x15 + 8, CONTROL_MASK);
    assert_eq!(marks(&board).len(), 1);
    key(&mut board, KEY_Z, 52, CONTROL_MASK | SHIFT_MASK);
    assert_eq!(marks(&board).len(), 1);
    key(&mut board, 0x6da, 0x2c, CONTROL_MASK);
    assert_eq!(marks(&board).len(), 1);
    key(&mut board, 0x6da, 0, CONTROL_MASK);
    assert_eq!(marks(&board).len(), 1);
}

#[test]
fn active_tool_undoes_its_own_steps() {
    let mut board = board();
    commit(&mut board, Mark::new(0, false));
    tool(&mut board, Tools::Pointer).active = true;
    tool(&mut board, Tools::Pointer).answers = vec![ToolUpdateResult::Redraw];
    board.renderer.render_queued = false;
    toolbar(&mut board, ToolbarEvent::Undo);
    assert_eq!(marks(&board).len(), 1);
    assert!(board.renderer.render_queued);
}

#[test]
fn shortcuts_ask_for_renderings() {
    let mut board = board();
    key(&mut board, KEY_S, 39, CONTROL_MASK);
    assert_eq!(requested(&board), Some(vec![Action::SaveToFile]));
    key(&mut board, KEY_S, 39, CONTROL_MASK | SHIFT_MASK);
    assert_eq!(requested(&board), Some(vec![Action::SaveToFileAs]));
    key(&mut board, KEY_C, 54, CONTROL_MASK);
    assert_eq!(requested(&board), Some(vec![Action::SaveToClipboard, Action::Exit]));
    key(&mut board, KEY_C, 54, CONTROL_MASK | ALT_MASK);
    assert_eq!(requested(&board), Some(vec![Action::CopyFilepathToClipboard]));
    key(&mut board, KEY_ESCAPE, 9, 0);
    assert_eq!(requested(&board), Some(vec![Action::Exit]));
    key(&mut board, KEY_KP_ENTER, 104, 0);
    assert_eq!(requested(&board), Some(vec![Action::SaveToFile, Action::Exit]));
}

#[test]
fn places_of_the_other_shortcuts() {
    let mut board = board();
    key(&mut board, 0, 0x1f + 8, CONTROL_MASK);
    assert_eq!(requested(&board), Some(vec![Action::SaveToFile]));
    key(&mut board, 0, 0x2e + 8, CONTROL_MASK);
    assert_eq!(requested(&board), Some(vec![Action::SaveToClipboard, Action::Exit]));
    assert!(matches!(
        key(&mut board, 0, 0x14 + 8, CONTROL_MASK).as_slice(),
        [Command::Output(SketchBoardOutput::ToggleToolbarsDisplay)]
    ));
    for code in [0x20 + 8, 0x17 + 8] {
        assert!(matches!(
            key(&mut board, 0, code, CONTROL_MASK | SHIFT_MASK).as_slice(),
            [Command::InteractiveDebugging]
        ));
    }
}

#[test]
fn keys_that_tell_the_program_something() {
    let mut board = board();
    assert!(matches!(
        key(&mut board, KEY_T, 28, CONTROL_MASK).as_slice(),
        [Command::Output(SketchBoardOutput::ToggleToolbarsDisplay)]
    ));
    for symbol in [KEY_D, KEY_I] {
        assert!(matches!(
            key(&mut board, symbol, 8, CONTROL_MASK | SHIFT_MASK).as_slice(),
            [Command::InteractiveDebugging]
        ));
    }
}

#[test]
fn key_kept_by_the_tool_is_no_shortcut() {
    let mut board = board();
    commit(&mut board, Mark::new(0, false));
    tool(&mut board, Tools::Pointer).answers = vec![ToolUpdateResult::StopPropagation];
    assert!(key(&mut board, KEY_Z, 52, CONTROL_MASK).is_empty());
    assert_eq!(marks(&board).len(), 1);
    tool(&mut board, Tools::Pointer).answers = vec![ToolUpdateResult::Redraw];
    key(&mut board, KEY_ESCAPE, 9, 0);
    assert_eq!(requested(&board), None);
}

#[test]
fn delete_removes_what_the_tool_was_drawing_too() {
    let mut board = board();
    commit(&mut board, Mark::new(0, false));
    tool(&mut board, Tools::Pointer).active = true;
    tool(&mut board, Tools::Pointer).answers =
        vec![ToolUpdateResult::Commit(Mark::new(200, false)), ToolUpdateResult::Unmodified];
    key(&mut board, KEY_DELETE, 119, 0);
    assert!(marks(&board).is_empty());
    toolbar(&mut board, ToolbarEvent::Undo);
    assert_eq!(marks(&board).len(), 2);
}

#[test]
fn arrows_pan_the_image() {
    let mut board = board();
    let offset = |board: &Board| board.renderer.inner.as_ref().unwrap().offset;
    assert_eq!(offset(&board), at(0, 0));
    key(&mut board, KEY_LEFT, 0x69 + 8, ALT_MASK);
    assert_eq!(offset(&board), at(-50, 0));
    key(&mut board, KEY_LEFT, 0x69 + 8, ALT_MASK);
    assert_eq!(offset(&board), at(-100, 0));
    key(&mut board, KEY_RIGHT, 0x6a + 8, ALT_MASK);
    assert_eq!(offset(&board), at(-50, 0));
    key(&mut board, KEY_UP, 0x67 + 8, ALT_MASK);
    assert_eq!(offset(&board), at(-50, -50));
    key(&mut board, KEY_DOWN, 0x6c + 8, ALT_MASK);
    assert_eq!(offset(&board), at(-50, 0));
    board.renderer.take_render_request();
    key(&mut board, 0, 0x69 + 8, ALT_MASK);
    assert_eq!(offset(&board), at(-50, 0));
    assert_eq!(requested(&board), Some(vec![]));
}

#[test]
fn pointer_drags_objects() {
    let mut board = board();
    commit(&mut board, Mark::new(0, false));
    mouse(&mut board, MouseEventType::BeginDrag, 1, 1, 0, at(50, 50));
    mouse(&mut board, MouseEventType::UpdateDrag, 1, 1, 0, at(10, 0));
    assert_eq!(marks(&board)[0].bounds.top_left, at(10, 0));
    mouse(&mut board, MouseEventType::EndDrag, 1, 1, 0, at(30, 20));
    assert_eq!(marks(&board)[0].bounds.top_left, at(30, 20));
    assert_eq!(tool(&mut board, Tools::Pointer).events, 0);
    toolbar(&mut board, ToolbarEvent::Undo);
    toolbar(&mut board, ToolbarEvent::Redo);
    assert_eq!(marks(&board)[0].bounds.top_left, at(30, 20));
}

#[test]
fn changes_are_copied_if_configured() {
    let mut config = config();
    config.auto_copy = true;
    let mut board = board_with(&config);
    commit(&mut board, Mark::new(0, false));
    for (type_, pos) in [
        (MouseEventType::BeginDrag, at(50, 50)),
        (MouseEventType::EndDrag, at(30, 20)),
    ] {
        let modifier = ModifierType { bits: 0 };
        let msg = SketchBoardInput::new_mouse_event(type_, 1, 1, modifier, pos, false);
        board.update(msg, &config);
    }
    assert_eq!(requested(&board), Some(vec![Action::SaveToClipboard]));
}

#[test]
fn hovering_changes_only_the_cursor() {
    let mut board = board();
    commit(&mut board, Mark::new(0, false));
    mouse(&mut board, MouseEventType::PointerPos, 0, 0, 0, at(50, 50));
    assert_eq!(board.renderer.cursor, Some(PointerCursor::Move));
    let area = board.renderer.inner.as_ref().unwrap();
    assert_eq!(area.selection_focus.selected, None);
    assert_eq!(area.pointer_offset, at(50, 50));
    mouse(&mut board, MouseEventType::PointerPos, 0, 0, 0, at(300, 300));
    assert_eq!(board.renderer.cursor, None);
}

#[test]
fn temporary_pointer_moves_while_drawing() {
    let mut board = board();
    toolbar(&mut board, ToolbarEvent::ToolSelected(Tools::Brush));
    commit(&mut board, Mark::new(0, false));
    mouse(&mut board, MouseEventType::PointerPos, 0, 0, CONTROL_MASK, at(50, 50));
    assert_eq!(board.renderer.cursor, Some(PointerCursor::Move));
    mouse(&mut board, MouseEventType::PointerPos, 0, 0, 0, at(50, 50));
    assert_eq!(board.renderer.cursor, None);
    let events = tool(&mut board, Tools::Brush).events;
    mouse(&mut board, MouseEventType::BeginDrag, 1, 1, CONTROL_MASK, at(50, 50));
    mouse(&mut board, MouseEventType::EndDrag, 1, 1, 0, at(40, 0));
    assert_eq!(marks(&board)[0].bounds.top_left, at(40, 0));
    assert_eq!(tool(&mut board, Tools::Brush).events, events);
    let focus = board.renderer.inner.as_ref().unwrap().selection_focus;
    assert_eq!((focus.selected, focus.focused), (None, Some(0)));
}

#[test]
fn empty_drag_of_the_temporary_pointer_is_swallowed() {
    let mut board = board();
    toolbar(&mut board, ToolbarEvent::ToolSelected(Tools::Brush));
    let events = tool(&mut board, Tools::Brush).events;
    mouse(&mut board, MouseEventType::BeginDrag, 1, 1, CONTROL_MASK, at(300, 300));
    assert!(board.temporary_pointer_noop_drag);
    for step in 1..5 {
        mouse(&mut board, MouseEventType::UpdateDrag, 1, 1, 0, at(step, step));
        assert!(board.temporary_pointer_noop_drag);
    }
    mouse(&mut board, MouseEventType::EndDrag, 1, 1, 0, at(9, 9));
    assert!(!board.temporary_pointer_noop_drag);
    assert_eq!(tool(&mut board, Tools::Brush).events, events);
    mouse(&mut board, MouseEventType::BeginDrag, 1, 1, 0, at(300, 300));
    assert_eq!(tool(&mut board, Tools::Brush).events, events + 1);
}

#[test]
fn double_click_opens_a_text() {
    let mut board = board();
    commit(&mut board, Mark::new(0, true));
    mouse(&mut board, MouseEventType::Click, 1, 2, 0, at(50, 50));
    assert!(marks(&board).is_empty());
    assert_eq!(board.active_tool_type(), Tools::Text);
    let text = tool(&mut board, Tools::Text);
    assert!(text.im_context && text.has_sender);
    assert_eq!(text.text, Some((0, Mark::new(0, true))));
    mouse(&mut board, MouseEventType::Click, 1, 1, CONTROL_MASK, at(50, 50));
    assert_eq!(tool(&mut board, Tools::Text).events, 1);
}

#[test]
fn text_that_is_handed_back_can_be_undone_and_redone() {
    let mut board = board();
    commit(&mut board, Mark::new(0, true));
    commit(&mut board, Mark::new(200, false));
    mouse(&mut board, MouseEventType::Click, 1, 2, 0, at(50, 50));
    assert_eq!(marks(&board), &vec![Mark::new(200, false)]);
    let (index, before) = tool(&mut board, Tools::Text).text.take().unwrap();
    let after = Mark::new(20, true);
    tool(&mut board, Tools::Text).answers =
        vec![ToolUpdateResult::Modify { index, before, after }];
    toolbar(&mut board, ToolbarEvent::ToolSelected(Tools::Line));
    let edited = vec![after, Mark::new(200, false)];
    assert_eq!(marks(&board), &edited);
    let mut undone = 0;
    while !board.renderer.inner.as_ref().unwrap().history.is_empty() {
        toolbar(&mut board, ToolbarEvent::Undo);
        undone += 1;
    }
    assert_eq!(undone, 3);
    assert!(marks(&board).is_empty());
    for _ in 0..undone {
        toolbar(&mut board, ToolbarEvent::Redo);
    }
    assert_eq!(marks(&board), &edited);
}

#[test]
fn text_that_is_not_taken_is_put_back() {
    let mut board = board();
    commit(&mut board, Mark::new(0, true));
    commit(&mut board, Mark::new(200, false));
    tool(&mut board, Tools::Text).takes_texts = false;
    mouse(&mut board, MouseEventType::Click, 1, 2, 0, at(50, 50));
    assert_eq!(marks(&board), &vec![Mark::new(0, true), Mark::new(200, false)]);
    assert_eq!(board.active_tool_type(), Tools::Pointer);
}

#[test]
fn typed_characters_are_shortcuts_outside_of_texts() {
    let mut board = board();
    let commit = |text: &str| SketchBoardInput::new_commit_event(TextEventMsg::Commit(text.into()));
    assert!(matches!(
        send(&mut board, commit("l")).as_slice(),
        [
            Command::Input(SketchBoardInput::ToolbarEvent(ToolbarEvent::ToolSelected(Tools::Line))),
            Command::Output(SketchBoardOutput::ToolSwitchShortcut(Tools::Line)),
        ]
    ));
    for (text, index) in [("1", 0), ("2x", 1), ("9", 8), ("0", 9)] {
        assert!(matches!(
            send(&mut board, commit(text)).as_slice(),
            [Command::Output(SketchBoardOutput::ColorSwitchShortcut(i))] if *i == index
        ));
    }
    assert!(send(&mut board, commit("")).is_empty());
    assert!(send(&mut board, commit("q")).is_empty());
    let end = SketchBoardInput::new_commit_event(TextEventMsg::PreeditEnd);
    assert!(send(&mut board, end).is_empty());
}

#[test]
fn typed_characters_go_to_the_text_tool() {
    let mut board = board();
    toolbar(&mut board, ToolbarEvent::ToolSelected(Tools::Text));
    tool(&mut board, Tools::Text).input_enabled = true;
    let msg = SketchBoardInput::new_commit_event(TextEventMsg::Commit("l".into()));
    let commands = send(&mut board, msg);
    assert_eq!(commands.len(), 1);
    assert!(matches!(
        &commands[0],
        Command::Input(SketchBoardInput::InputEvent(InputEvent::Text(TextEventMsg::Commit(t))))
            if t == "l"
    ));
    let end = SketchBoardInput::new_commit_event(TextEventMsg::PreeditEnd);
    assert_eq!(send(&mut board, end).len(), 1);
}

#[test]
fn style_changes_reach_the_latest_object() {
    let mut board = board();
    commit(&mut board, Mark::new(0, false));
    toolbar(&mut board, ToolbarEvent::ColorSelected(BLUE));
    assert_eq!(marks(&board)[0].color, BLUE);
    assert_eq!(board.style.color, BLUE);
    assert_eq!(tool(&mut board, Tools::Pointer).style.unwrap().color, BLUE);
    toolbar(&mut board, ToolbarEvent::Undo);
    assert_eq!(marks(&board)[0].color, BLACK);
}

#[test]
fn style_changes_go_to_a_tool_that_draws() {
    let mut board = board();
    commit(&mut board, Mark::new(0, false));
    tool(&mut board, Tools::Pointer).drawing = true;
    toolbar(&mut board, ToolbarEvent::ColorSelected(BLUE));
    assert_eq!(marks(&board)[0].color, BLACK);
    toolbar(&mut board, ToolbarEvent::ToggleFill);
    toolbar(&mut board, ToolbarEvent::SizeSelected(Size::Large));
    toolbar(&mut board, ToolbarEvent::AnnotationSizeChanged(Fixed::from_int(3)));
    let expected = Style {
        color: BLUE,
        size: Size::Large,
        fill: true,
        annotation_size_factor: Fixed::from_int(3),
    };
    assert_eq!(board.style, expected);
    assert_eq!(tool(&mut board, Tools::Pointer).style, Some(expected));
}

#[test]
fn toolbar_saves_finish_the_drawing() {
    let mut board = board();
    tool(&mut board, Tools::Pointer).active = true;
    tool(&mut board, Tools::Pointer).answers =
        vec![ToolUpdateResult::Commit(Mark::new(0, false))];
    toolbar(&mut board, ToolbarEvent::SaveFile);
    assert_eq!(marks(&board).len(), 1);
    assert_eq!(requested(&board), Some(vec![Action::SaveToFile]));
    toolbar(&mut board, ToolbarEvent::SaveFileAs);
    assert_eq!(requested(&board), Some(vec![Action::SaveToFileAs]));
    toolbar(&mut board, ToolbarEvent::CopyClipboard);
    assert_eq!(requested(&board), Some(vec![Action::SaveToClipboard]));
}

#[test]
fn wheel_and_buttons_move_the_view() {
    let mut board = board();
    let area = |board: &Board| {
        let area = board.renderer.inner.as_ref().unwrap();
        (area.scale_factor, area.offset, area.is_drag)
    };
    mouse(&mut board, MouseEventType::PointerPos, 0, 0, 0, at(200, 200));
    assert!(send(&mut board, SketchBoardInput::new_scroll_event(Fixed::from_int(-1))).is_empty());
    assert_eq!(area(&board), (Fixed::from_int(2), at(-200, -200), false));
    assert!(send(&mut board, SketchBoardInput::new_scroll_event(Fixed::from_int(1))).is_empty());
    assert_eq!(area(&board), (Fixed::from_int(1), at(0, 0), false));
    mouse(&mut board, MouseEventType::UpdateDrag, 2, 1, 0, at(20, 10));
    assert_eq!(area(&board), (Fixed::from_int(1), at(20, 10), true));
    mouse(&mut board, MouseEventType::EndDrag, 2, 1, 0, at(30, 10));
    assert_eq!(area(&board), (Fixed::from_int(1), at(30, 10), false));
    toolbar(&mut board, ToolbarEvent::OriginalScale);
    assert_eq!(area(&board), (Fixed::from_int(1), at(0, 0), false));
    mouse(&mut board, MouseEventType::Click, 3, 1, 0, at(20, 10));
    assert_eq!(requested(&board), Some(vec![Action::SaveToClipboard]));
    board.renderer.resize(800, 800);
    toolbar(&mut board, ToolbarEvent::Resize);
    assert_eq!(area(&board), (Fixed::from_int(2), at(0, 0), false));
}

#[test]
fn wheel_is_kept_from_the_view_by_the_tool() {
    let mut board = board();
    tool(&mut board, Tools::Pointer).answers = vec![ToolUpdateResult::StopPropagation];
    send(&mut board, SketchBoardInput::new_scroll_event(Fixed::from_int(-1)));
    assert_eq!(board.renderer.inner.as_ref().unwrap().scale_factor, Fixed::from_int(1));
}

#[test]
fn device_pixels_count_for_positions() {
    let config = config();
    let mut board = board_with(&config);
    board.renderer.device_scale = 2;
    commit(&mut board, Mark::new(0, false));
    mouse(&mut board, MouseEventType::Click, 1, 1, 0, at(60, 20));
    assert_eq!(board.renderer.inner.as_ref().unwrap().selection_focus.selected, None);
    mouse(&mut board, MouseEventType::Click, 1, 1, 0, at(40, 20));
    assert_eq!(board.renderer.inner.as_ref().unwrap().selection_focus.selected, Some(0));
}

#[test]
fn rendering_is_turned_into_steps() {
    let mut board = board();
    let image = RenderedImage {
        pixels: (0..7).map(|i| Rgba { r: i, g: 10 + i, b: 20 + i, a: 30 + i }).collect(),
        width: 2,
        height: 2,
        stride: 3,
    };
    let actions = vec![Action::SaveToFile, Action::CopyFilepathToClipboard];
    let commands = send(&mut board, SketchBoardInput::RenderResult(image, actions));
    let [Command::Render { pix_buf: Some(pix_buf), steps }] = commands.as_slice() else {
        panic!("one rendering with pixels");
    };
    assert_eq!((pix_buf.width, pix_buf.height, pix_buf.rowstride), (2, 2, 8));
    assert_eq!(
        pix_buf.bytes,
        vec![0, 10, 20, 30, 1, 11, 21, 31, 3, 13, 23, 33, 4, 14, 24, 34]
    );
    assert!(matches!(steps.as_slice(), [RenderStep::Save, RenderStep::CopyFilepath]));
}

#[test]
fn rendering_without_use_has_no_pixels() {
    let mut board = board();
    let image = RenderedImage { pixels: vec![], width: 0, height: 0, stride: 0 };
    let commands = send(&mut board, SketchBoardInput::RenderResult(image, vec![Action::Exit]));
    assert!(matches!(
        commands.as_slice(),
        [Command::Render { pix_buf: None, steps }] if matches!(steps.as_slice(), [RenderStep::Exit])
    ));
}

#[test]
fn followup_remembers_the_file() {
    let mut board = board();
    let msg = SketchBoardInput::RenderResultFollowup(None, vec![], Some("/tmp/a.png".into()));
    assert_eq!(send(&mut board, msg).len(), 1);
    assert_eq!(board.last_saved_filepath.as_deref(), Some("/tmp/a.png"));
    send(&mut board, SketchBoardInput::RenderResultFollowup(None, vec![], None));
    assert_eq!(board.last_saved_filepath.as_deref(), Some("/tmp/a.png"));
    board.file_saved("/tmp/b.png".into());
    assert_eq!(board.last_saved_filepath.as_deref(), Some("/tmp/b.png"));
}

#[test]
fn other_messages() {
    let mut board = board();
    board.renderer.render_queued = false;
    assert!(matches!(send(&mut board, SketchBoardInput::Exit).as_slice(), [Command::Quit]));
    let output = SketchBoardOutput::DimensionsUpdate(Some((3, 4)));
    assert!(matches!(
        send(&mut board, SketchBoardInput::Output(output)).as_slice(),
        [Command::Output(SketchBoardOutput::DimensionsUpdate(Some((3, 4))))]
    ));
    assert!(!board.renderer.render_queued);
    assert!(send(&mut board, SketchBoardInput::Refresh).is_empty());
    assert!(board.renderer.render_queued);
    board.renderer.render_queued = false;
    assert!(send(&mut board, SketchBoardInput::ScaleFactorChanged).is_empty());
    assert!(board.renderer.render_queued);
}

#[test]
fn frames_are_drawn_from_bottom_to_top() {
    let mut board = board();
    commit(&mut board, Mark::new(0, false));
    commit(&mut board, Mark::new(200, false));
    let area = board.renderer.inner().as_mut().unwrap();
    assert_eq!(
        area.render_framebuffer(true, true),
        vec![
            Layer::Clear,
            Layer::Background,
            Layer::Object(0),
            Layer::Object(1),
            Layer::Selection,
            Layer::ActiveTool,
            Layer::Crop,
        ]
    );
    let (region, layers) = area.render_native_resolution(false, None);
    assert_eq!(region, (at(0, 0), at(400, 400)));
    assert_eq!(
        layers,
        vec![Layer::Clear, Layer::Background, Layer::Object(0), Layer::Object(1)]
    );
    let crop = (at(5, 6), at(70, 80));
    assert_eq!(area.render_native_resolution(false, Some(crop)).0, crop);
    let empty = (at(5, 6), at(0, 0));
    assert_eq!(area.render_native_resolution(false, Some(empty)).0, region);
    assert!(area.render_object_selection().is_none());
    assert!(area.pointer_click(at(50, 50)));
    let (bounds, handles) = area.render_object_selection().unwrap();
    assert_eq!(bounds, Mark::new(0, false).bounds);
    assert_eq!(handles.len(), 8);
}

#[test]
fn transparency_is_drawn_on_the_screen_only() {
    let mut board = board();
    let area = board.renderer.inner().as_mut().unwrap();
    assert!(area.needs_background_upload());
    area.background_uploaded();
    assert!(!area.needs_background_upload());
    assert_eq!(area.transparency_step(false), TransparencyStep::Create);
    area.transparency_created();
    assert_eq!(area.transparency_step(true), TransparencyStep::Reuse);
    assert_eq!(area.transparency_step(false), TransparencyStep::Skip);
}

#[test]
fn requested_actions_wait_for_the_next_frame() {
    let mut board = board();
    assert!(board.renderer.take_render_request().is_none());
    board.renderer.request_render(&[Action::SaveToFile]);
    assert!(board.renderer.render_queued);
    assert_eq!(board.renderer.take_render_request(), Some(vec![Action::SaveToFile]));
    assert!(board.renderer.take_render_request().is_none());
    assert!(!board.renderer.render_queued);
}

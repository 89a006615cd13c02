use satty::femtovg_area::imp::FemtoVgAreaMut;
use satty::femtovg_area::state::PointerCursor;
use satty::fixed::Fixed;
use satty::math::{Scalar, Vec2D};
use satty::sketch_board::board::restyle;
use satty::style::{Color, Size, Style, StyleChange};
use satty::tools::edit::{box_handles, resize_box, EditHandle, ObjectBounds};
use satty::tools::line::Line;
use satty::tools::{Drawable, Tools};

/// Single precision numbers.
#[derive(Clone, Copy, Debug, PartialEq)]
struct Real(f32);

impl Scalar for Real {
    fn from_int(n: i64) -> Self {
        Real(n as f32)
    }
    fn epsilon() -> Self {
        Real(f32::EPSILON)
    }
    fn plus(self, other: Self) -> Self {
        Real(self.0 + other.0)
    }
    fn minus(self, other: Self) -> Self {
        Real(self.0 - other.0)
    }
    fn times(self, other: Self) -> Self {
        Real(self.0 * other.0)
    }
    fn over(self, other: Self) -> Self {
        Real(self.0 / other.0)
    }
    fn negate(self) -> Self {
        Real(-self.0)
    }
    fn square_root(self) -> Self {
        Real(self.0.sqrt())
    }
    fn larger_of(self, other: Self) -> Self {
        Real(self.0.max(other.0))
    }
    fn less_than(self, other: Self) -> bool {
        self.0 < other.0
    }
    fn at_most(self, other: Self) -> bool {
        self.0 <= other.0
    }
    fn same_as(self, other: Self) -> bool {
        self.0 == other.0
    }
    fn sorts_before(self, other: Self) -> bool {
        self.0.total_cmp(&other.0).is_lt()
    }
    fn snap_direction(x: Self, y: Self) -> (Self, Self) {
        let step = 15f32.to_radians();
        let angle = (y.0.atan2(x.0) / step).round() * step;
        let length = (x.0 * x.0 + y.0 * y.0).sqrt();
        (Real(length * angle.cos()), Real(length * angle.sin()))
    }
    fn spec_from_int(n: i64) -> Self {
        Self::from_int(n)
    }
    fn spec_epsilon() -> Self {
        Self::epsilon()
    }
    fn spec_plus(self, other: Self) -> Self {
        self.plus(other)
    }
    fn spec_minus(self, other: Self) -> Self {
        self.minus(other)
    }
    fn spec_times(self, other: Self) -> Self {
        self.times(other)
    }
    fn spec_over(self, other: Self) -> Self {
        self.over(other)
    }
    fn spec_negate(self) -> Self {
        self.negate()
    }
    fn spec_square_root(self) -> Self {
        self.square_root()
    }
    fn spec_larger_of(self, other: Self) -> Self {
        self.larger_of(other)
    }
    fn spec_less_than(self, other: Self) -> bool {
        self.less_than(other)
    }
    fn spec_at_most(self, other: Self) -> bool {
        self.at_most(other)
    }
    fn spec_same_as(self, other: Self) -> bool {
        self.same_as(other)
    }
    fn spec_sorts_before(self, other: Self) -> bool {
        self.sorts_before(other)
    }
    fn spec_snap_direction(x: Self, y: Self) -> (Self, Self) {
        Self::snap_direction(x, y)
    }
    fn lemma_sorts_one_way(_a: Self, _b: Self) {}
    fn lemma_sorts_through(_a: Self, _b: Self, _c: Self) {}
    fn lemma_negate_negative(_a: Self) {}
}

const RED: Color = Color { r: 255, g: 0, b: 0, a: 255 };
const BLUE: Color = Color { r: 0, g: 0, b: 255, a: 255 };

fn vec2(x: f32, y: f32) -> Vec2D<Real> {
    Vec2D::new(Real(x), Real(y))
}

#[derive(Clone, Debug)]
struct TestDrawable {
    pos: Vec2D<Real>,
    size: Vec2D<Real>,
    style: Style<Real>,
    handles: Option<Vec<(EditHandle, Vec2D<Real>)>>,
    is_text: bool,
    /// How often the object left the canvas, and how often it came back.
    told: (u32, u32),
}

impl Drawable<Real> for TestDrawable {
    fn edit_bounds(&self) -> Option<ObjectBounds<Real>> {
        Some(ObjectBounds::new(self.pos, self.size))
    }
    fn edit_handles(&self) -> Vec<(EditHandle, Vec2D<Real>)> {
        self.handles
            .clone()
            .unwrap_or_else(|| box_handles(self.edit_bounds().unwrap()))
    }
    fn hit_test(&self, pos: Vec2D<Real>, tolerance: Real) -> bool {
        self.edit_bounds().unwrap().contains(pos, tolerance)
    }
    fn move_by(&mut self, delta: Vec2D<Real>) -> bool {
        if delta.is_zero() {
            return false;
        }
        self.pos = self.pos.plus(delta);
        true
    }
    fn resize(&mut self, handle: EditHandle, delta: Vec2D<Real>) -> bool {
        if delta.is_zero() {
            return false;
        }
        let bounds = resize_box(self.edit_bounds().unwrap(), handle, delta);
        self.pos = bounds.top_left;
        self.size = bounds.size;
        true
    }
    fn apply_style_change(&mut self, change: StyleChange<Real>) -> bool {
        let style = restyle(self.style, change);
        let changed = style != self.style;
        self.style = style;
        changed
    }
    fn supports_text_edit(&self) -> bool {
        self.is_text
    }
    fn edit_snapshot(&self) -> Self {
        self.clone()
    }
    fn handle_undo(&mut self) {
        self.told.0 += 1;
    }
    fn handle_redo(&mut self) {
        self.told.1 += 1;
    }
    fn invalidate_edit_cache(&mut self) {}
    fn begin_edit_session(&mut self) {}
    fn end_edit_session(&mut self) {}

    fn spec_edit_bounds(self) -> Option<ObjectBounds<Real>> {
        self.edit_bounds()
    }
    fn spec_handle_count(self) -> usize {
        self.edit_handles().len()
    }
    fn spec_handle_at(self, i: usize) -> (EditHandle, Vec2D<Real>) {
        self.edit_handles()[i]
    }
    fn spec_hit_test(self, pos: Vec2D<Real>, tolerance: Real) -> bool {
        self.hit_test(pos, tolerance)
    }
    fn spec_move_by(mut self, delta: Vec2D<Real>) -> (Self, bool) {
        let changed = self.move_by(delta);
        (self, changed)
    }
    fn spec_resize(mut self, handle: EditHandle, delta: Vec2D<Real>) -> (Self, bool) {
        let changed = self.resize(handle, delta);
        (self, changed)
    }
    fn spec_apply_style_change(mut self, change: StyleChange<Real>) -> (Self, bool) {
        let changed = self.apply_style_change(change);
        (self, changed)
    }
    fn spec_supports_text_edit(self) -> bool {
        self.supports_text_edit()
    }
    fn spec_edit_snapshot(self) -> Self {
        self
    }
    fn spec_handle_undo(self) -> Self {
        self
    }
    fn spec_handle_redo(self) -> Self {
        self
    }
    fn spec_invalidate_edit_cache(self) -> Self {
        self
    }
    fn spec_begin_edit_session(self) -> Self {
        self
    }
    fn spec_end_edit_session(self) -> Self {
        self
    }
}

type Area = FemtoVgAreaMut<Real, TestDrawable>;

fn red_style() -> Style<Real> {
    Style {
        color: RED,
        size: Size::Medium,
        fill: false,
        annotation_size_factor: Real(1.0),
    }
}

fn test_drawable(x: f32) -> TestDrawable {
    TestDrawable {
        pos: vec2(x, 0.0),
        size: vec2(10.0, 10.0),
        style: red_style(),
        handles: None,
        is_text: false,
        told: (0, 0),
    }
}

fn test_line_drawable() -> TestDrawable {
    TestDrawable {
        pos: vec2(0.0, 0.0),
        size: vec2(10.0, 0.0),
        style: red_style(),
        handles: Some(vec![
            (EditHandle::Start, vec2(0.0, 0.0)),
            (EditHandle::End, vec2(10.0, 0.0)),
        ]),
        is_text: false,
        told: (0, 0),
    }
}

fn test_text(x: f32) -> TestDrawable {
    TestDrawable {
        is_text: true,
        ..test_drawable(x)
    }
}

fn test_area() -> Area {
    FemtoVgAreaMut::new(Tools::Pointer, 1, 1, None)
}

fn drawable_pos(area: &Area, index: usize) -> Vec2D<Real> {
    area.drawables[index].edit_bounds().unwrap().top_left
}

fn drawable_size(area: &Area, index: usize) -> Vec2D<Real> {
    area.drawables[index].edit_bounds().unwrap().size
}

fn drawable_style(area: &Area, index: usize) -> Style<Real> {
    area.drawables[index].style
}

#[test]
fn add_history_undo_redo_moves_drawable_between_stacks() {
    let mut area = test_area();

    area.commit(test_drawable(0.0));
    assert_eq!(area.drawables.len(), 1);

    assert!(area.undo());
    assert!(area.drawables.is_empty());

    assert!(area.redo());
    assert_eq!(area.drawables.len(), 1);
    assert_eq!(drawable_pos(&area, 0), vec2(0.0, 0.0));
}

#[test]
fn commit_sets_style_target_without_selecting_object() {
    let mut area = test_area();

    area.commit(test_drawable(0.0));

    assert_eq!(area.selection_focus.selected, None);
    assert_eq!(area.selection_focus.focused, Some(0));
}

#[test]
fn style_change_updates_target_in_place_and_is_undoable() {
    let mut area = test_area();
    area.commit(test_drawable(0.0));
    let original_history_len = area.history.len();

    assert!(area.apply_style_change_to_target(StyleChange::Color(BLUE)));

    assert_eq!(area.drawables.len(), 1);
    assert_eq!(drawable_style(&area, 0).color, BLUE);
    assert_eq!(area.history.len(), original_history_len + 1);

    assert!(area.undo());
    assert_eq!(area.drawables.len(), 1);
    assert_eq!(drawable_style(&area, 0).color, RED);

    assert!(area.redo());
    assert_eq!(drawable_style(&area, 0).color, BLUE);
}

#[test]
fn pointer_selection_overrides_previous_style_target() {
    let mut area = test_area();
    area.commit(test_drawable(0.0));
    area.commit(test_drawable(30.0));

    assert!(area.pointer_click(vec2(5.0, 5.0)));
    assert!(area.apply_style_change_to_target(StyleChange::Size(Size::Large)));

    assert_eq!(drawable_style(&area, 0).size, Size::Large);
    assert_eq!(drawable_style(&area, 1).size, Size::Medium);
}

#[test]
fn switching_to_drawing_tool_clears_style_target() {
    let mut area = test_area();
    area.commit(test_drawable(0.0));

    area.set_active_tool(Tools::Text);

    assert_eq!(area.selection_focus.focused, None);
    assert!(!area.apply_style_change_to_target(StyleChange::Color(BLUE)));
    assert_eq!(drawable_style(&area, 0).color, RED);
}

#[test]
fn pointer_hover_cursor_uses_selected_resize_handles() {
    let mut area = test_area();
    area.commit(test_drawable(0.0));
    assert!(area.pointer_click(vec2(5.0, 5.0)));

    assert_eq!(
        area.pointer_hover_cursor(vec2(0.0, 0.0)),
        Some(PointerCursor::ResizeNwSe)
    );
    assert_eq!(
        area.pointer_hover_cursor(vec2(5.0, 0.0)),
        Some(PointerCursor::ResizeNs)
    );
}

#[test]
fn pointer_hover_cursor_uses_move_for_object_body() {
    let mut area = test_area();
    area.commit(test_drawable(0.0));

    assert_eq!(
        area.pointer_hover_cursor(vec2(5.0, 5.0)),
        Some(PointerCursor::Move)
    );
}

#[test]
fn pointer_hover_cursor_clears_on_empty_area() {
    let mut area = test_area();
    area.commit(test_drawable(0.0));

    assert_eq!(area.pointer_hover_cursor(vec2(50.0, 50.0)), None);
}

#[test]
fn pointer_hover_cursor_uses_all_resize_for_line_endpoints() {
    let mut area = test_area();
    area.commit(test_line_drawable());
    assert!(area.pointer_click(vec2(5.0, 0.0)));

    assert_eq!(
        area.pointer_hover_cursor(vec2(10.0, 0.0)),
        Some(PointerCursor::ResizeAll)
    );
}

#[test]
fn temporary_pointer_hover_cursor_uses_virtual_handles_without_selection() {
    let mut area = test_area();
    area.commit(test_drawable(0.0));

    assert_eq!(
        area.temporary_pointer_hover_cursor(vec2(0.0, 0.0)),
        Some(PointerCursor::ResizeNwSe)
    );
    assert_eq!(area.selection_focus.selected, None);
}

#[test]
fn temporary_pointer_hover_cursor_uses_move_for_body() {
    let mut area = test_area();
    area.scale_factor = Real(4.0);
    area.commit(test_drawable(0.0));

    assert_eq!(
        area.temporary_pointer_hover_cursor(vec2(5.0, 5.0)),
        Some(PointerCursor::Move)
    );
}

#[test]
fn temporary_pointer_hover_cursor_clears_on_empty_area() {
    let mut area = test_area();
    area.commit(test_drawable(0.0));

    assert_eq!(
        area.temporary_pointer_hover_cursor(vec2(50.0, 50.0)),
        None
    );
}

#[test]
fn temporary_pointer_drag_moves_without_visible_selection() {
    let mut area = test_area();
    area.scale_factor = Real(4.0);
    area.commit(test_drawable(0.0));

    assert!(area.temporary_pointer_begin_drag(vec2(5.0, 5.0)));
    assert_eq!(area.selection_focus.selected, None);
    assert_eq!(area.selection_focus.focused, Some(0));
    assert!(area.pointer_end_drag(vec2(12.0, 0.0)));

    assert_eq!(drawable_pos(&area, 0), vec2(12.0, 0.0));
    assert_eq!(area.selection_focus.selected, None);
}

#[test]
fn temporary_pointer_drag_resizes_without_visible_selection() {
    let mut area = test_area();
    area.commit(test_drawable(0.0));

    assert!(area.temporary_pointer_begin_drag(vec2(0.0, 0.0)));
    assert_eq!(area.selection_focus.selected, None);
    assert!(area.pointer_end_drag(vec2(2.0, 3.0)));

    assert_eq!(drawable_pos(&area, 0), vec2(2.0, 3.0));
    assert_eq!(drawable_size(&area, 0), vec2(8.0, 7.0));
    assert_eq!(area.selection_focus.selected, None);
}

#[test]
fn temporary_pointer_click_targets_style_without_selecting() {
    let mut area = test_area();
    area.commit(test_drawable(0.0));

    assert!(area.temporary_pointer_click(vec2(5.0, 5.0)));
    assert_eq!(area.selection_focus.selected, None);
    assert_eq!(area.selection_focus.focused, Some(0));
    assert!(area.apply_style_change_to_target(StyleChange::Color(BLUE)));

    assert_eq!(drawable_style(&area, 0).color, BLUE);
    assert_eq!(area.selection_focus.selected, None);
}

#[test]
fn temporary_pointer_click_on_empty_area_preserves_target() {
    let mut area = test_area();
    area.commit(test_drawable(0.0));

    assert!(!area.temporary_pointer_click(vec2(50.0, 50.0)));

    assert_eq!(area.selection_focus.selected, None);
    assert_eq!(area.selection_focus.focused, Some(0));
}

#[test]
fn temporary_pointer_hit_testing_prefers_topmost_drawable() {
    let mut area = test_area();
    area.commit(test_drawable(0.0));
    area.commit(test_drawable(0.0));

    assert!(area.temporary_pointer_click(vec2(5.0, 5.0)));
    assert!(area.apply_style_change_to_target(StyleChange::Color(BLUE)));

    assert_eq!(drawable_style(&area, 0).color, RED);
    assert_eq!(drawable_style(&area, 1).color, BLUE);
}

#[test]
fn modify_history_undo_redo_restores_snapshots() {
    let mut area = test_area();
    area.commit(test_drawable(0.0));

    assert!(area.pointer_begin_drag(vec2(5.0, 5.0)));
    assert!(area.pointer_end_drag(vec2(12.0, 0.0)));
    assert_eq!(drawable_pos(&area, 0), vec2(12.0, 0.0));

    assert!(area.undo());
    assert_eq!(drawable_pos(&area, 0), vec2(0.0, 0.0));

    assert!(area.redo());
    assert_eq!(drawable_pos(&area, 0), vec2(12.0, 0.0));
}

#[test]
fn noop_pointer_drag_does_not_push_history() {
    let mut area = test_area();
    area.commit(test_drawable(0.0));
    let original_history_len = area.history.len();

    assert!(area.pointer_begin_drag(vec2(5.0, 5.0)));
    assert!(!area.pointer_end_drag(Vec2D::zero()));

    assert_eq!(area.history.len(), original_history_len);
    assert_eq!(drawable_pos(&area, 0), vec2(0.0, 0.0));
}

#[test]
fn redo_history_is_cleared_after_new_change() {
    let mut area = test_area();
    area.commit(test_drawable(0.0));

    assert!(area.pointer_begin_drag(vec2(5.0, 5.0)));
    assert!(area.pointer_end_drag(vec2(12.0, 0.0)));
    assert!(area.undo());

    area.commit(test_drawable(30.0));
    assert!(!area.redo());
}

#[test]
fn reset_history_restores_drawables_in_order() {
    let mut area = test_area();
    area.commit(test_drawable(0.0));
    area.commit(test_drawable(20.0));

    assert!(area.reset());
    assert!(area.drawables.is_empty());

    assert!(area.undo());
    assert_eq!(area.drawables.len(), 2);
    assert_eq!(drawable_pos(&area, 0), vec2(0.0, 0.0));
    assert_eq!(drawable_pos(&area, 1), vec2(20.0, 0.0));
}

#[test]
fn undo_and_redo_of_nothing_fail() {
    let mut area = test_area();

    assert!(!area.undo());
    assert!(!area.redo());
    assert!(!area.reset());
}

#[test]
fn undo_then_redo_restores_both_histories() {
    let mut area = test_area();
    area.commit(test_drawable(0.0));
    area.commit(test_drawable(30.0));
    assert!(area.pointer_begin_drag(vec2(35.0, 5.0)));
    assert!(area.pointer_end_drag(vec2(0.0, 7.0)));

    assert!(area.undo());
    assert_eq!((area.history.len(), area.redo_history.len()), (2, 1));
    assert!(area.undo());
    assert_eq!((area.history.len(), area.redo_history.len()), (1, 2));
    assert!(area.redo());
    assert!(area.redo());
    assert_eq!((area.history.len(), area.redo_history.len()), (3, 0));
    assert_eq!(drawable_pos(&area, 0), vec2(0.0, 0.0));
    assert_eq!(drawable_pos(&area, 1), vec2(30.0, 7.0));
    assert_eq!(area.selection_focus.selected, None);
}

#[test]
fn redo_of_a_reset_removes_everything_again() {
    let mut area = test_area();
    area.commit(test_drawable(0.0));
    area.commit(test_drawable(20.0));
    assert!(area.reset());
    assert!(area.undo());
    assert!(area.redo());
    assert!(area.drawables.is_empty());
    assert!(area.undo());
    assert_eq!(area.drawables.len(), 2);
}

#[test]
fn drag_previews_do_not_add_up() {
    let mut area = test_area();
    area.commit(test_drawable(0.0));
    assert!(area.pointer_begin_drag(vec2(5.0, 5.0)));
    assert!(area.pointer_update_drag(vec2(3.0, 0.0)));
    assert!(area.pointer_update_drag(vec2(4.0, 1.0)));
    assert_eq!(drawable_pos(&area, 0), vec2(4.0, 1.0));
    assert!(area.pointer_end_drag(vec2(6.0, 0.0)));
    assert_eq!(drawable_pos(&area, 0), vec2(6.0, 0.0));
    assert_eq!(area.history.len(), 2);
    assert!(area.undo());
    assert_eq!(drawable_pos(&area, 0), vec2(0.0, 0.0));
}

#[test]
fn drag_that_returns_leaves_no_trace() {
    let mut area = test_area();
    area.commit(test_drawable(0.0));
    assert!(area.pointer_begin_drag(vec2(5.0, 5.0)));
    assert!(area.pointer_edit_active());
    assert!(area.pointer_update_drag(vec2(3.0, 0.0)));
    assert!(!area.pointer_end_drag(vec2(0.0, 0.0)));
    assert!(!area.pointer_edit_active());
    assert_eq!(drawable_pos(&area, 0), vec2(0.0, 0.0));
    assert_eq!(area.history.len(), 1);
}

#[test]
fn text_is_taken_and_put_back_in_its_place() {
    let mut area = test_area();
    area.commit(test_text(0.0));
    area.commit(test_drawable(100.0));

    let (index, text) = area.take_text_edit_at(vec2(5.0, 5.0)).unwrap();
    assert_eq!(index, 0);
    assert_eq!(area.drawables.len(), 1);
    area.restore_drawable(index, text);
    assert_eq!(drawable_pos(&area, 0), vec2(0.0, 0.0));
    assert_eq!(drawable_pos(&area, 1), vec2(100.0, 0.0));
    assert_eq!(area.selection_focus.focused, Some(0));
    assert_eq!(area.history.len(), 2);
}

#[test]
fn changed_text_can_be_undone() {
    let mut area = test_area();
    area.commit(test_text(0.0));
    area.commit(test_drawable(100.0));

    let (index, text) = area.take_text_edit_at(vec2(5.0, 5.0)).unwrap();
    let mut changed = text.clone();
    changed.size = vec2(40.0, 10.0);
    area.modify_drawable(index, text, changed);
    assert_eq!(drawable_size(&area, 0), vec2(40.0, 10.0));
    assert!(area.undo());
    assert_eq!(drawable_size(&area, 0), vec2(10.0, 10.0));
    assert!(area.redo());
    assert_eq!(drawable_size(&area, 0), vec2(40.0, 10.0));
}

#[test]
fn only_texts_are_taken() {
    let mut area = test_area();
    area.commit(test_drawable(0.0));
    assert!(area.take_text_edit_at(vec2(5.0, 5.0)).is_none());
    assert!(area.take_text_edit_at(vec2(500.0, 5.0)).is_none());
    assert_eq!(area.drawables.len(), 1);
}

#[test]
fn object_is_put_at_the_end_if_its_place_is_gone() {
    let mut area = test_area();
    area.restore_drawable(7, test_drawable(1.0));
    assert_eq!(area.drawables.len(), 1);
    assert_eq!(area.selection_focus.focused, Some(7));
    assert!(!area.apply_style_change_to_target(StyleChange::Fill(true)));
    assert_eq!(area.selection_focus.focused, None);
}

#[test]
fn refused_style_change_is_not_recorded() {
    let mut area = test_area();
    area.commit(test_drawable(0.0));
    assert!(!area.apply_style_change_to_target(StyleChange::Color(RED)));
    assert_eq!(area.history.len(), 1);
}

#[test]
fn pointer_keeps_the_selection_when_it_is_chosen_again() {
    let mut area = test_area();
    area.commit(test_drawable(0.0));
    assert!(area.pointer_click(vec2(5.0, 5.0)));
    assert!(!area.pointer_click(vec2(5.0, 5.0)));
    area.set_active_tool(Tools::Pointer);
    assert_eq!(area.selection_focus.selected, Some(0));
    area.set_active_tool(Tools::Line);
    assert_eq!(area.selection_focus.selected, None);
}

#[test]
fn dragging_a_handle_of_the_selection_resizes() {
    let mut area = test_area();
    area.commit(test_drawable(0.0));
    assert!(area.pointer_click(vec2(5.0, 5.0)));
    assert!(area.pointer_begin_drag(vec2(10.0, 10.0)));
    assert!(area.pointer_end_drag(vec2(5.0, 5.0)));
    assert_eq!(drawable_pos(&area, 0), vec2(0.0, 0.0));
    assert_eq!(drawable_size(&area, 0), vec2(15.0, 15.0));
}

#[test]
fn cursor_names_are_those_of_the_window_system() {
    assert_eq!(PointerCursor::Move.name(), "move");
    assert_eq!(PointerCursor::ResizeNwSe.name(), "nwse-resize");
    assert_eq!(PointerCursor::ResizeNeSw.name(), "nesw-resize");
    assert_eq!(PointerCursor::ResizeNs.name(), "ns-resize");
    assert_eq!(PointerCursor::ResizeEw.name(), "ew-resize");
    assert_eq!(PointerCursor::ResizeAll.name(), "all-resize");
}

fn large_area(input_scale: Option<Real>) -> Area {
    FemtoVgAreaMut::new(Tools::Pointer, 200, 100, input_scale)
}

#[test]
fn image_is_made_to_fit_and_centered() {
    let mut area = large_area(None);
    area.update_transformation(400, 400);
    assert_eq!(area.scale_factor, Real(2.0));
    assert_eq!(area.offset, vec2(0.0, 100.0));
    area.update_transformation(400, 100);
    assert_eq!(area.scale_factor, Real(1.0));
    assert_eq!(area.offset, vec2(100.0, 0.0));
}

#[test]
fn configured_scale_is_used_from_the_start() {
    let mut area = large_area(Some(Real(0.5)));
    area.update_transformation(400, 400);
    assert_eq!(area.scale_factor, Real(0.5));
    assert_eq!(area.offset, vec2(150.0, 175.0));
}

#[test]
fn zoom_keeps_the_point_under_the_pointer() {
    let mut area = large_area(None);
    area.update_transformation(400, 400);
    area.set_pointer_offset(vec2(100.0, 150.0));
    let before = area.abs_canvas_to_image_coordinates(vec2(100.0, 150.0), Real(1.0));
    assert_eq!(before, vec2(50.0, 25.0));
    area.set_zoom_scale(Real(2.0), false);
    area.update_transformation(400, 400);
    assert_eq!(area.scale_factor, Real(4.0));
    let after = area.abs_canvas_to_image_coordinates(vec2(100.0, 150.0), Real(1.0));
    assert_eq!(after, before);
    assert_eq!(area.last_offset, area.drag_offset);
}

#[test]
fn zoom_waits_while_the_image_is_dragged() {
    let mut area = large_area(None);
    area.set_is_drag(true);
    area.set_zoom_scale(Real(2.0), false);
    assert_eq!(area.zoom_scale, Real(0.0));
    area.set_is_drag(false);
    area.set_zoom_scale(Real(-2.0), false);
    assert_eq!(area.zoom_scale, Real(0.0));
}

#[test]
fn drags_of_the_image_start_where_the_last_one_ended() {
    let mut area = large_area(None);
    area.set_drag_offset(vec2(3.0, 4.0));
    area.set_drag_offset(vec2(5.0, 6.0));
    assert_eq!(area.drag_offset, vec2(5.0, 6.0));
    area.store_last_offset();
    area.set_drag_offset(vec2(1.0, 1.0));
    assert_eq!(area.drag_offset, vec2(6.0, 7.0));
}

#[test]
fn reset_centers_the_image_again() {
    let mut area = large_area(None);
    area.set_drag_offset(vec2(3.0, 4.0));
    area.update_transformation(400, 400);
    assert_eq!(area.offset, vec2(3.0, 104.0));
    area.set_zoom_scale(Real(1.0), true);
    area.reset_drag_offset();
    area.update_transformation(400, 400);
    assert_eq!(area.offset, vec2(100.0, 150.0));
    assert_eq!(area.drag_offset, vec2(0.0, 0.0));
    let settled = area.offset;
    area.update_transformation(400, 400);
    assert_eq!(area.offset, settled);
}

#[test]
fn displacements_do_not_see_the_offset() {
    let mut area = large_area(None);
    area.update_transformation(400, 400);
    let delta = area.rel_canvas_to_image_coordinates(vec2(10.0, 6.0), Real(2.0));
    assert_eq!(delta, vec2(10.0, 6.0));
}

#[test]
fn objects_are_told_when_they_leave_and_come_back() {
    let mut area = test_area();
    area.commit(test_drawable(1.0));
    area.commit(test_drawable(2.0));
    assert!(area.undo());
    assert!(area.redo());
    let told = |area: &Area| area.drawables.iter().map(|d| d.told).collect::<Vec<_>>();
    assert_eq!(told(&area), [(0, 0), (1, 1)]);
    assert_eq!((area.history.len(), area.redo_history.len()), (2, 0));
    assert!(area.reset());
    assert!(area.undo());
    assert_eq!(told(&area), [(1, 1), (2, 2)]);
    assert_eq!(drawable_pos(&area, 1), vec2(2.0, 0.0));
    assert!(area.redo());
    assert!(area.drawables.is_empty());
}

#[test]
fn fitted_image_is_neither_too_wide_nor_too_high() {
    for (width, height, canvas, raw) in [
        (200, 100, (400, 400), 128),
        (200, 100, (400, 100), 64),
        (1920, 1080, (800, 600), 26),
        (3, 192, (100, 100), 33),
        (1, 65, (100, 100), 0),
    ] {
        let mut area: FemtoVgAreaMut<Fixed, Line<Fixed>> =
            FemtoVgAreaMut::new(Tools::Pointer, width, height, None);
        area.update_transformation(canvas.0, canvas.1);
        let scale = area.scale_factor.raw;
        assert_eq!(scale, raw);
        let (w, h) = (i64::from(width), i64::from(height));
        assert!(scale * h <= 64 * i64::from(canvas.1));
        assert!(scale * (64 * w - h) <= 4096 * i64::from(canvas.0));
    }
}

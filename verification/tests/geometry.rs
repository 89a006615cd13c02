use satty::fixed::Fixed;
use satty::math::{Scalar, Vec2D};
use satty::sketch_board::events::{
    InputEvent, KeyEventMsg, ModifierType, MouseButton, MouseEventMsg, MouseEventType,
    BUTTON1_MASK, SHIFT_MASK,
};
use satty::sketch_board::keys::KEY_ESCAPE;
use satty::style::{Color, Size, Style};
use satty::tools::edit::{
    box_handles, closest_handle, draw_bounds, draw_handles, point_near_segment, resize_box,
    EditHandle, ObjectBounds,
};
use satty::tools::line::{Line, LineTool};
use satty::tools::{Drawable, Tool, ToolEvent, ToolUpdateResult, Tools};

/// Single precision numbers.
#[derive(Clone, Copy, Debug, PartialEq)]
struct Real(f32);

impl Scalar for Real {
    fn from_int(n: i64) -> Self {
        Real(n as f32)
    }
    fn epsilon() -> Self {
        Real(f32::EPSILON)
    }
    fn plus(self, other: Self) -> Self {
        Real(self.0 + other.0)
    }
    fn minus(self, other: Self) -> Self {
        Real(self.0 - other.0)
    }
    fn times(self, other: Self) -> Self {
        Real(self.0 * other.0)
    }
    fn over(self, other: Self) -> Self {
        Real(self.0 / other.0)
    }
    fn negate(self) -> Self {
        Real(-self.0)
    }
    fn square_root(self) -> Self {
        Real(self.0.sqrt())
    }
    fn larger_of(self, other: Self) -> Self {
        Real(self.0.max(other.0))
    }
    fn less_than(self, other: Self) -> bool {
        self.0 < other.0
    }
    fn at_most(self, other: Self) -> bool {
        self.0 <= other.0
    }
    fn same_as(self, other: Self) -> bool {
        self.0 == other.0
    }
    fn sorts_before(self, other: Self) -> bool {
        self.0.total_cmp(&other.0).is_lt()
    }
    fn snap_direction(x: Self, y: Self) -> (Self, Self) {
        let step = 15f32.to_radians();
        let angle = (y.0.atan2(x.0) / step).round() * step;
        let length = (x.0 * x.0 + y.0 * y.0).sqrt();
        (Real(length * angle.cos()), Real(length * angle.sin()))
    }
    fn spec_from_int(n: i64) -> Self {
        Self::from_int(n)
    }
    fn spec_epsilon() -> Self {
        Self::epsilon()
    }
    fn spec_plus(self, other: Self) -> Self {
        self.plus(other)
    }
    fn spec_minus(self, other: Self) -> Self {
        self.minus(other)
    }
    fn spec_times(self, other: Self) -> Self {
        self.times(other)
    }
    fn spec_over(self, other: Self) -> Self {
        self.over(other)
    }
    fn spec_negate(self) -> Self {
        self.negate()
    }
    fn spec_square_root(self) -> Self {
        self.square_root()
    }
    fn spec_larger_of(self, other: Self) -> Self {
        self.larger_of(other)
    }
    fn spec_less_than(self, other: Self) -> bool {
        self.less_than(other)
    }
    fn spec_at_most(self, other: Self) -> bool {
        self.at_most(other)
    }
    fn spec_same_as(self, other: Self) -> bool {
        self.same_as(other)
    }
    fn spec_sorts_before(self, other: Self) -> bool {
        self.sorts_before(other)
    }
    fn spec_snap_direction(x: Self, y: Self) -> (Self, Self) {
        Self::snap_direction(x, y)
    }
    fn lemma_sorts_one_way(_a: Self, _b: Self) {}
    fn lemma_sorts_through(_a: Self, _b: Self, _c: Self) {}
    fn lemma_negate_negative(_a: Self) {}
}

fn vec2(x: f32, y: f32) -> Vec2D<Real> {
    Vec2D::new(Real(x), Real(y))
}

#[test]
fn bounds_normalize_negative_size() {
    let bounds = ObjectBounds::new(vec2(10.0, 20.0), vec2(-4.0, -5.0));

    assert_eq!(bounds.top_left, vec2(6.0, 15.0));
    assert_eq!(bounds.size, vec2(4.0, 5.0));
}

#[test]
fn box_resize_moves_expected_corner() {
    let bounds = ObjectBounds::new(vec2(10.0, 10.0), vec2(20.0, 30.0));
    let resized = resize_box(bounds, EditHandle::BottomRight, vec2(5.0, -10.0));

    assert_eq!(resized.top_left, vec2(10.0, 10.0));
    assert_eq!(resized.size, vec2(25.0, 20.0));
}

#[test]
fn hit_test_segment_uses_tolerance() {
    let start = vec2(0.0, 0.0);
    let end = vec2(10.0, 0.0);

    assert!(point_near_segment(vec2(5.0, 2.0), start, end, Real(2.1)));
    assert!(!point_near_segment(vec2(5.0, 3.0), start, end, Real(2.1)));
}

#[test]
fn box_has_a_handle_at_each_corner_and_edge() {
    let bounds = ObjectBounds::from_points(vec2(10.0, 20.0), vec2(0.0, 0.0));
    assert_eq!(bounds.bottom_right(), vec2(10.0, 20.0));
    assert_eq!(bounds.center(), vec2(5.0, 10.0));
    let handles = box_handles(bounds);
    assert_eq!(
        handles,
        vec![
            (EditHandle::TopLeft, vec2(0.0, 0.0)),
            (EditHandle::Top, vec2(5.0, 0.0)),
            (EditHandle::TopRight, vec2(10.0, 0.0)),
            (EditHandle::Right, vec2(10.0, 10.0)),
            (EditHandle::BottomRight, vec2(10.0, 20.0)),
            (EditHandle::Bottom, vec2(5.0, 20.0)),
            (EditHandle::BottomLeft, vec2(0.0, 20.0)),
            (EditHandle::Left, vec2(0.0, 10.0)),
        ]
    );
    let order: Vec<EditHandle> = handles.iter().map(|(handle, _)| *handle).collect();
    assert_eq!(EditHandle::box_handles().to_vec(), order);
    assert_eq!(bounds.handle_position(EditHandle::Start), None);
    assert_eq!(bounds.handle_position(EditHandle::End), None);
}

#[test]
fn box_contains_its_margin() {
    let bounds = ObjectBounds::new(vec2(0.0, 0.0), vec2(10.0, 10.0));
    assert!(bounds.contains(vec2(-2.0, 12.0), Real(2.0)));
    assert!(!bounds.contains(vec2(-2.5, 5.0), Real(2.0)));
    assert!(!bounds.contains(vec2(5.0, 12.5), Real(2.0)));
}

#[test]
fn each_handle_moves_its_sides() {
    let bounds = ObjectBounds::new(vec2(0.0, 0.0), vec2(10.0, 10.0));
    let resized = |handle| {
        let r = resize_box(bounds, handle, vec2(1.0, 2.0));
        (r.top_left, r.size)
    };
    assert_eq!(resized(EditHandle::TopLeft), (vec2(1.0, 2.0), vec2(9.0, 8.0)));
    assert_eq!(resized(EditHandle::Top), (vec2(0.0, 2.0), vec2(10.0, 8.0)));
    assert_eq!(resized(EditHandle::TopRight), (vec2(0.0, 2.0), vec2(11.0, 8.0)));
    assert_eq!(resized(EditHandle::Right), (vec2(0.0, 0.0), vec2(11.0, 10.0)));
    assert_eq!(resized(EditHandle::Bottom), (vec2(0.0, 0.0), vec2(10.0, 12.0)));
    assert_eq!(resized(EditHandle::BottomLeft), (vec2(1.0, 0.0), vec2(9.0, 12.0)));
    assert_eq!(resized(EditHandle::Left), (vec2(1.0, 0.0), vec2(9.0, 10.0)));
    assert_eq!(resized(EditHandle::Start), (vec2(0.0, 0.0), vec2(10.0, 10.0)));
    let flipped = resize_box(bounds, EditHandle::Right, vec2(-15.0, 0.0));
    assert_eq!((flipped.top_left, flipped.size), (vec2(-5.0, 0.0), vec2(5.0, 10.0)));
}

#[test]
fn nearest_handle_in_reach_is_taken() {
    let handles = [
        (EditHandle::Start, vec2(0.0, 0.0)),
        (EditHandle::End, vec2(10.0, 0.0)),
        (EditHandle::Top, vec2(10.0, 0.0)),
    ];
    assert_eq!(closest_handle(&handles, vec2(4.0, 0.0), Real(6.0)), Some(EditHandle::Start));
    assert_eq!(closest_handle(&handles, vec2(6.0, 0.0), Real(6.0)), Some(EditHandle::End));
    assert_eq!(closest_handle(&handles, vec2(5.0, 0.0), Real(5.0)), Some(EditHandle::Start));
    assert_eq!(closest_handle(&handles, vec2(5.0, 1.0), Real(5.0)), None);
    assert_eq!(closest_handle(&[], vec2(5.0, 1.0), Real(5.0)), None);
}

#[test]
fn handles_keep_their_size_on_the_screen() {
    let handles = [(EditHandle::Start, vec2(1.0, 2.0))];
    let dots = draw_handles(&handles, Real(2.0));
    assert_eq!(dots.len(), 1);
    assert_eq!(dots[0].center, vec2(1.0, 2.0));
    assert_eq!((dots[0].radius, dots[0].line_width), (Real(2.5), Real(0.75)));
    let bounds = ObjectBounds::new(vec2(0.0, 0.0), vec2(10.0, 10.0));
    let outline = draw_bounds(bounds, Real(0.0));
    assert_eq!(outline.bounds, bounds);
    assert_eq!(outline.line_width, Real(1.5 / 0.01));
}

#[test]
fn points_beyond_the_ends_are_measured_from_the_ends() {
    let (start, end) = (vec2(0.0, 0.0), vec2(10.0, 0.0));
    assert!(point_near_segment(vec2(13.0, 4.0), start, end, Real(5.0)));
    assert!(!point_near_segment(vec2(-4.0, 4.0), start, end, Real(5.0)));
    assert!(point_near_segment(vec2(3.0, 4.0), start, start, Real(5.0)));
    assert!(!point_near_segment(vec2(3.0, 4.1), start, start, Real(5.0)));
}

fn line_style() -> Style<Real> {
    Style {
        color: Color { r: 1, g: 2, b: 3, a: 4 },
        size: Size::Small,
        fill: true,
        annotation_size_factor: Real(2.0),
    }
}

fn line_tool() -> LineTool<Real> {
    LineTool { line: None, style: line_style(), input_enabled: false }
}

fn drag(type_: MouseEventType, button: MouseButton, mask: u32, pos: Vec2D<Real>) -> ToolEvent<Real> {
    ToolEvent::Input(InputEvent::Mouse(MouseEventMsg {
        type_,
        button,
        modifier: ModifierType { bits: mask },
        pos,
        n_pressed: 1,
        release: false,
    }))
}

#[test]
fn line_tool_draws_lines() {
    let mut tool = line_tool();
    assert_eq!(tool.get_tool_type(), Tools::Line);
    let primary = MouseButton::Primary;
    let begin = drag(MouseEventType::BeginDrag, primary, 0, vec2(1.0, 2.0));
    let step = drag(MouseEventType::UpdateDrag, primary, 0, vec2(3.0, 0.0));
    let end = drag(MouseEventType::EndDrag, primary, 0, vec2(6.0, 8.0));
    assert!(matches!(tool.handle_event(&step), ToolUpdateResult::Unmodified));
    assert!(matches!(tool.handle_event(&end), ToolUpdateResult::Unmodified));
    assert!(matches!(tool.handle_event(&begin), ToolUpdateResult::Redraw));
    assert!(tool.has_drawable());
    assert!(tool.line.unwrap().segment().is_none());
    assert!(matches!(tool.handle_event(&step), ToolUpdateResult::Redraw));
    assert_eq!(tool.line.unwrap().segment(), Some((vec2(1.0, 2.0), vec2(4.0, 2.0))));
    let ToolUpdateResult::Commit(line) = tool.handle_event(&end) else {
        panic!("the line is finished");
    };
    assert_eq!(line.segment(), Some((vec2(1.0, 2.0), vec2(7.0, 10.0))));
    assert_eq!(line.style, line_style());
    assert!(!tool.has_drawable());
}

#[test]
fn line_of_no_length_is_dropped() {
    let mut tool = line_tool();
    let primary = MouseButton::Primary;
    tool.handle_event(&drag(MouseEventType::BeginDrag, primary, 0, vec2(1.0, 2.0)));
    let end = drag(MouseEventType::EndDrag, primary, 0, vec2(0.0, 0.0));
    assert!(matches!(tool.handle_event(&end), ToolUpdateResult::Redraw));
    assert!(tool.line.is_none());
}

#[test]
fn middle_button_draws_no_line() {
    let mut tool = line_tool();
    let middle = MouseButton::Middle;
    for type_ in [MouseEventType::BeginDrag, MouseEventType::UpdateDrag, MouseEventType::EndDrag] {
        let event = drag(type_, middle, 0, vec2(1.0, 2.0));
        assert!(matches!(tool.handle_event(&event), ToolUpdateResult::Unmodified));
    }
    assert!(tool.line.is_none());
}

#[test]
fn shift_snaps_the_line() {
    let mut tool = line_tool();
    let primary = MouseButton::Primary;
    tool.handle_event(&drag(MouseEventType::BeginDrag, primary, 0, vec2(0.0, 0.0)));
    let event = drag(MouseEventType::UpdateDrag, primary, SHIFT_MASK | BUTTON1_MASK, vec2(100.0, 3.0));
    tool.handle_event(&event);
    let direction = tool.line.unwrap().direction.unwrap();
    assert_eq!(direction.y, Real(0.0));
    assert!((direction.x.0 - 100.045).abs() < 0.01);
}

#[test]
fn escape_gives_a_line_up() {
    let mut tool = line_tool();
    let escape = ToolEvent::Input(InputEvent::Key(KeyEventMsg::new(
        KEY_ESCAPE,
        9,
        ModifierType { bits: 0 },
    )));
    assert!(matches!(tool.handle_event(&escape), ToolUpdateResult::Unmodified));
    let begin = drag(MouseEventType::BeginDrag, MouseButton::Secondary, 0, vec2(1.0, 2.0));
    tool.handle_event(&begin);
    assert!(matches!(tool.handle_event(&escape), ToolUpdateResult::Redraw));
    assert!(tool.line.is_none());
}

#[test]
fn line_is_edited_by_its_ends() {
    let mut line = Line { start: vec2(0.0, 0.0), direction: Some(vec2(10.0, 0.0)), style: line_style() };
    assert_eq!(
        line.edit_handles(),
        vec![(EditHandle::Start, vec2(0.0, 0.0)), (EditHandle::End, vec2(10.0, 0.0))]
    );
    assert!(line.hit_test(vec2(5.0, 1.0), Real(1.0)));
    assert!(!line.hit_test(vec2(5.0, 2.0), Real(1.0)));
    assert!(line.resize(EditHandle::Start, vec2(1.0, 1.0)));
    assert_eq!(line.segment(), Some((vec2(1.0, 1.0), vec2(10.0, 0.0))));
    assert!(line.resize(EditHandle::End, vec2(0.0, 4.0)));
    assert_eq!(line.segment(), Some((vec2(1.0, 1.0), vec2(10.0, 4.0))));
    assert!(!line.resize(EditHandle::Left, vec2(0.0, 4.0)));
    assert!(!line.resize(EditHandle::End, vec2(0.0, 0.0)));
    assert!(line.move_by(vec2(1.0, 0.0)));
    assert!(!line.move_by(vec2(0.0, 0.0)));
    assert_eq!(line.segment(), Some((vec2(2.0, 1.0), vec2(11.0, 4.0))));
    assert_eq!(
        line.edit_bounds(),
        Some(ObjectBounds::new(vec2(2.0, 1.0), vec2(9.0, 3.0)))
    );
    line.direction = None;
    assert_eq!(line.edit_bounds(), None);
    assert!(line.edit_handles().is_empty());
    assert!(!line.hit_test(vec2(2.0, 1.0), Real(5.0)));
    assert!(!line.move_by(vec2(1.0, 0.0)));
    assert!(!line.resize(EditHandle::End, vec2(1.0, 0.0)));
}

fn steps(raw: i64) -> Fixed {
    Fixed { raw }
}

#[test]
fn fixed_point_numbers_round_down_and_saturate() {
    let (three, two) = (Fixed::from_int(3), Fixed::from_int(2));
    assert_eq!(three.raw, 192);
    assert_eq!(three.times(two), Fixed::from_int(6));
    assert_eq!(three.over(two), steps(96));
    assert_eq!(steps(-1).over(two), steps(-1));
    assert_eq!(steps(-1).times(steps(1)), steps(-1));
    assert_eq!(steps(i64::MAX).plus(three), steps(i64::MAX));
    assert_eq!(steps(i64::MIN).minus(three), steps(i64::MIN));
    assert_eq!(steps(i64::MIN).negate(), steps(i64::MAX));
    assert_eq!(three.over(steps(0)), steps(i64::MAX));
    assert_eq!(three.negate().over(steps(0)), steps(i64::MIN));
    assert_eq!(steps(0).over(steps(0)), steps(0));
    assert_eq!(three.over(two.negate()), steps(-96));
    assert_eq!(Fixed::from_int(9).square_root(), three);
    assert_eq!(two.square_root(), steps(90));
    assert_eq!(three.negate().square_root(), steps(0));
    assert_eq!(three.larger_of(two), three);
}

#[test]
fn fixed_point_vectors_snap_to_15_degrees() {
    let snap = |x: i64, y: i64| Vec2D::new(steps(x), steps(y)).snapped_vector_15deg();
    assert_eq!(snap(3000, 100), Vec2D::new(steps(3001), steps(0)));
    assert_eq!(snap(100, -3000), Vec2D::new(steps(0), steps(-3001)));
    assert_eq!(snap(1000, 1001), Vec2D::new(steps(999), steps(999)));
    assert_eq!(snap(2000, 500), Vec2D::new(steps(1990), steps(533)));
    assert_eq!(snap(0, 0), Vec2D::new(steps(0), steps(0)));
    assert_eq!(snap(i64::MIN, 0), Vec2D::new(steps(i64::MIN), steps(0)));
}

fn point(x: i64, y: i64) -> Vec2D<Fixed> {
    Vec2D::new(Fixed::from_int(x), Fixed::from_int(y))
}

#[test]
fn corners_may_be_named_in_any_order() {
    let (a, b) = (point(7, -3), point(-2, 4));
    let bounds = ObjectBounds::from_points(a, b);
    assert_eq!(bounds, ObjectBounds::from_points(b, a));
    assert_eq!(bounds.top_left, point(-2, -3));
    assert_eq!(bounds.size, point(9, 7));
    assert_eq!(bounds.bottom_right(), point(7, 4));
}

#[test]
fn handles_lie_in_their_box() {
    let bounds = ObjectBounds::new(point(-2, -3), point(9, 7));
    for handle in EditHandle::box_handles() {
        assert!(bounds.contains(bounds.handle_position(handle).unwrap(), Fixed::from_int(0)));
    }
    assert_eq!(bounds.handle_position(EditHandle::TopLeft), Some(bounds.top_left));
    assert_eq!(bounds.handle_position(EditHandle::BottomRight), Some(bounds.bottom_right()));
}

#[test]
fn box_that_is_resized_back_is_as_it_was() {
    let bounds = ObjectBounds::new(point(-2, -3), point(9, 7));
    for handle in EditHandle::box_handles() {
        let resized = resize_box(bounds, handle, point(3, 2));
        assert_ne!(resized, bounds);
        assert_eq!(resize_box(resized, handle, point(-3, -2)), bounds);
        assert_eq!(resize_box(bounds, handle, point(0, 0)), bounds);
    }
    assert_eq!(resize_box(bounds, EditHandle::Start, point(3, 2)), bounds);
    let passed = resize_box(bounds, EditHandle::Left, point(10, 0));
    assert_ne!(resize_box(passed, EditHandle::Left, point(-10, 0)), bounds);
}

#[test]
fn ends_of_a_line_move_apart_from_each_other() {
    let style = Style {
        color: Color { r: 1, g: 2, b: 3, a: 4 },
        size: Size::Medium,
        fill: false,
        annotation_size_factor: Fixed::from_int(1),
    };
    let line = Line { start: point(1, 2), direction: Some(point(6, 8)), style };
    let resized = |line: Line<Fixed>, handle, delta| {
        let mut line = line;
        assert!(line.resize(handle, delta));
        line
    };
    let (there, back) = (point(2, -1), point(-2, 1));
    let by_start = resized(line, EditHandle::Start, there);
    let by_end = resized(line, EditHandle::End, there);
    assert_eq!(by_start.segment(), Some((point(3, 1), point(7, 10))));
    assert_eq!(by_end.segment(), Some((point(1, 2), point(9, 9))));
    let mut moved = line;
    assert!(moved.move_by(there));
    assert_eq!(resized(by_start, EditHandle::End, there).segment(), moved.segment());
    assert_eq!(resized(by_start, EditHandle::Start, back).segment(), line.segment());
    assert_eq!(resized(by_end, EditHandle::End, back).segment(), line.segment());
}

#[test]
fn style_of_a_line_is_the_one_it_was_begun_with() {
    let mut tool = line_tool();
    let button = MouseButton::Secondary;
    let later = Style { color: Color { r: 9, g: 9, b: 9, a: 9 }, ..line_style() };
    tool.handle_event(&drag(MouseEventType::BeginDrag, button, 0, vec2(1.0, 2.0)));
    tool.handle_event(&drag(MouseEventType::UpdateDrag, button, 0, vec2(5.0, 5.0)));
    tool.handle_event(&ToolEvent::StyleChanged(later));
    tool.handle_event(&drag(MouseEventType::UpdateDrag, MouseButton::Middle, 0, vec2(9.0, 9.0)));
    tool.handle_event(&drag(MouseEventType::UpdateDrag, button, 0, vec2(4.0, 4.0)));
    let end = drag(MouseEventType::EndDrag, button, 0, vec2(6.0, 8.0));
    let ToolUpdateResult::Commit(line) = tool.handle_event(&end) else {
        panic!("the line is finished");
    };
    assert_eq!(line.segment(), Some((vec2(1.0, 2.0), vec2(7.0, 10.0))));
    assert_eq!(line.style, line_style());
    assert_eq!(tool.style, later);
    assert!(tool.line.is_none());
}

#[test]
fn whole_numbers_in_single_precision_are_exact_too() {
    let (a, b) = (vec2(4_194_303.0, -3.0), vec2(-0.0, 4_194_303.0));
    let bounds = ObjectBounds::from_points(a, b);
    assert_eq!(bounds, ObjectBounds::from_points(b, a));
    assert_eq!(bounds.top_left, vec2(0.0, -3.0));
    assert_eq!(bounds.size, vec2(4_194_303.0, 4_194_306.0));
    assert_eq!(bounds.bottom_right(), vec2(4_194_303.0, 4_194_303.0));
    let bounds = ObjectBounds::new(vec2(-2.0, -3.0), vec2(9.0, 7.0));
    for handle in EditHandle::box_handles() {
        let place = bounds.handle_position(handle).unwrap();
        assert!(bounds.contains(place, Real(0.0)));
        let resized = resize_box(bounds, handle, vec2(3.0, 2.0));
        assert_eq!(resize_box(resized, handle, vec2(-3.0, -2.0)), bounds);
    }
    let mut line = Line {
        start: vec2(1.0, 2.0),
        direction: Some(vec2(6.0, 8.0)),
        style: line_style(),
    };
    let mut moved = line;
    assert!(moved.move_by(vec2(2.0, -1.0)));
    assert!(line.resize(EditHandle::Start, vec2(2.0, -1.0)));
    assert_eq!(line.segment(), Some((vec2(3.0, 1.0), vec2(7.0, 10.0))));
    assert!(line.resize(EditHandle::End, vec2(2.0, -1.0)));
    assert_eq!(line.segment(), moved.segment());
}

//! What the view is for: the image fits the window and is centered in it, what is
//! under the pointer on the screen is what the pointer means in the image, and
//! panning and zooming do what they say. Coordinates are fixed-point numbers here.
use vstd::prelude::*;

use crate::femtovg_area::laws::{
    almost, lemma_fit_scale_fits, lemma_zoom_keeps_point_under_pointer,
};
use crate::femtovg_area::state::AreaState;
use crate::femtovg_area::RendererState;
use crate::fixed::Fixed;
use crate::math::{Scalar, Vec2D};
use crate::tools::hits::moderate;
use crate::tools::{Drawable, Tools};

verus! {

/// Everything about the canvas but its transformation is the same.
pub open spec fn same_contents<S, D>(a: AreaState<S, D>, b: AreaState<S, D>) -> bool {
    &&& a.image_width == b.image_width
    &&& a.image_height == b.image_height
    &&& a.background_uploaded == b.background_uploaded
    &&& a.transparency_created == b.transparency_created
    &&& a.active_tool == b.active_tool
    &&& a.drawables == b.drawables
    &&& a.history == b.history
    &&& a.redo_history == b.redo_history
    &&& a.selection_focus == b.selection_focus
    &&& a.transform_session == b.transform_session
}

/// Everything about the widget but its size and the transformation is the same.
pub open spec fn same_but_view<S: Scalar, D: Drawable<S>>(
    a: RendererState<S, D>,
    b: RendererState<S, D>,
) -> bool {
    &&& a.inner is Some
    &&& b.inner is Some
    &&& same_contents(a.area(), b.area())
    &&& a.device_scale == b.device_scale
    &&& a.cursor == b.cursor
    &&& a.request_render == b.request_render
    &&& a.render_queued == b.render_queued
}

/// A window takes over the size that it is given. A side of no length stays as it is,
/// whatever the other one does; and nothing but the view changes.
pub proof fn lemma_resize_takes_over_the_size<S: Scalar, D: Drawable<S>>(
    r: RendererState<S, D>,
    width: i32,
    height: i32,
)
    requires
        r.inner is Some,
        0 <= width,
        0 <= height,
    ensures
        ({
            let t = r.resize(width, height);
            &&& width > 0 ==> t.canvas_width == width
            &&& width == 0 ==> t.canvas_width == r.canvas_width
            &&& height > 0 ==> t.canvas_height == height
            &&& height == 0 ==> t.canvas_height == r.canvas_height
            &&& same_but_view(t, r)
            &&& t.area().zoom_scale == r.area().zoom_scale
            &&& t.area().pointer_offset == r.area().pointer_offset
        }),
{
}

/// An image whose scale was not set by hand fits the window after a change of the
/// size: it is no higher than the window, wider at most by the rounding of the aspect
/// ratio, and one step more would be too much.
pub proof fn lemma_resized_image_fits<D: Drawable<Fixed>>(
    r: RendererState<Fixed, D>,
    width: i32,
    height: i32,
)
    requires
        r.inner is Some,
        0 < width <= 0x100_0000,
        0 < height <= 0x100_0000,
        r.area().zoom_scale.raw == 0,
        0 < r.area().image_width,
        0 < r.area().image_height,
    ensures
        ({
            let scale = r.resize(width, height).area().scale_factor;
            let (w, h) = (r.area().image_width as int, r.area().image_height as int);
            &&& 0 <= scale.raw
            &&& scale.raw * h <= 64 * height
            &&& scale.raw * (64 * w - h) <= 4096 * width
            &&& 64 * w >= h ==> {
                ||| (scale.raw + 1) * w > 64 * width
                ||| (scale.raw + 1) * w * h > height * (64 * w - h)
            }
        }),
{
    lemma_fit_scale_fits(
        r.area().image_width,
        r.area().image_height,
        width as u32,
        height as u32,
    );
}

/// A scale that was set by hand is used as it is.
pub proof fn lemma_scale_set_by_hand_is_used<S: Scalar, D: Drawable<S>>(
    r: RendererState<S, D>,
    width: i32,
    height: i32,
)
    requires
        r.inner is Some,
        !r.area().zoom_scale.spec_same_as(S::spec_from_int(0)),
    ensures
        r.resize(width, height).area().scale_factor == r.area().zoom_scale,
{
}

/// The space before the image and that behind it are the same, up to half a step.
pub open spec fn in_the_middle(offset: int, window: int, image: int, scale: int) -> bool {
    2 * offset <= 64 * window - image * scale <= 2 * offset + 1
}

/// An image that was not dragged lies in the middle of the window.
pub proof fn lemma_resized_image_is_centered<D: Drawable<Fixed>>(
    r: RendererState<Fixed, D>,
    width: i32,
    height: i32,
)
    requires
        r.inner is Some,
        0 < width,
        0 < height,
        r.area().is_reset || (r.area().drag_offset.x.raw == 0 && r.area().drag_offset.y.raw == 0
            && !r.area().zoom_changed()),
        0 <= r.resize(width, height).area().scale_factor.raw <= 0x1000_0000,
    ensures
        ({
            let t = r.resize(width, height).area();
            let scale = t.scale_factor.raw as int;
            &&& in_the_middle(t.offset.x.raw as int, width as int, t.image_width as int, scale)
            &&& in_the_middle(t.offset.y.raw as int, height as int, t.image_height as int, scale)
        }),
{
    let t = r.resize(width, height).area();
    lemma_middle(width as int, t.image_width as int, t.scale_factor.raw as int);
    lemma_middle(height as int, t.image_height as int, t.scale_factor.raw as int);
}

proof fn lemma_middle(window: int, image: int, scale: int)
    requires
        0 <= window <= i32::MAX,
        i32::MIN <= image <= i32::MAX,
        0 <= scale <= 0x1000_0000,
    ensures
        ({
            let offset = Fixed::spec_from_int(window as i64).spec_minus(
                Fixed::spec_from_int(image as i64).spec_times(Fixed { raw: scale as i64 }),
            ).spec_over(Fixed::spec_from_int(2)).raw;
            &&& in_the_middle(offset as int, window, image, scale)
            &&& -0x800_0000_0000_0000 < offset < 0x800_0000_0000_0000
        }),
{
    assert(-0x800_0000_0000_0000 <= image * scale <= 0x800_0000_0000_0000) by (nonlinear_arith)
        requires
            -0x8000_0000 <= image <= 0x8000_0000,
            0 <= scale <= 0x1000_0000,
    ;
    assert(((image * 64) * scale) / 64 == image * scale) by (nonlinear_arith);
    let space = 64 * window - image * scale;
    assert((space * 64) / 128 == space / 2);
}

/// The buttons that set the scale center the image, whatever was done to it before;
/// no scale stands for the one that makes it fit.
pub proof fn lemma_reset_size_centers<D: Drawable<Fixed>>(r: RendererState<Fixed, D>, factor: Fixed)
    requires
        r.inner is Some,
        !r.area().is_drag,
        r.canvas_width <= i32::MAX,
        r.canvas_height <= i32::MAX,
        0 <= r.reset_size(factor).area().scale_factor.raw <= 0x1000_0000,
    ensures
        ({
            let t = r.reset_size(factor);
            let area = t.area();
            let scale = area.scale_factor.raw as int;
            &&& in_the_middle(
                area.offset.x.raw as int,
                r.canvas_width as int,
                area.image_width as int,
                scale,
            )
            &&& in_the_middle(
                area.offset.y.raw as int,
                r.canvas_height as int,
                area.image_height as int,
                scale,
            )
            &&& factor.raw != 0 ==> scale == factor.raw
            &&& same_but_view(t, r)
        }),
{
    let t = r.reset_size(factor).area();
    lemma_middle(r.canvas_width as int, t.image_width as int, t.scale_factor.raw as int);
    lemma_middle(r.canvas_height as int, t.image_height as int, t.scale_factor.raw as int);
}

/// The numbers of a view are far from the ends of the range.
pub open spec fn usual_view<D: Drawable<Fixed>>(r: RendererState<Fixed, D>) -> bool {
    &&& r.inner is Some
    &&& 0 < r.device_scale <= 16
    &&& 0 < r.area().scale_factor.raw
    &&& moderate(r.area().offset, 0x1_0000_0000_0000)
}

/// `u` is the coordinate of the step of the image that is shown at the coordinate
/// `shown` of the screen, where the image begins at `offset`.
pub open spec fn is_shown_at(u: int, shown: int, offset: int, scale: int) -> bool {
    u * scale <= 64 * (shown - offset) < (u + 1) * scale
}

proof fn lemma_shown_at(shown: int, offset: int, scale: int)
    requires
        -0x1_0000_0000_0000 <= shown <= 0x1_0000_0000_0000,
        -0x1_0000_0000_0000 <= offset <= 0x1_0000_0000_0000,
        0 < scale <= i64::MAX,
    ensures
        ({
            let u = Fixed { raw: shown as i64 }.spec_minus(Fixed { raw: offset as i64 }).spec_over(
                Fixed { raw: scale as i64 },
            ).raw;
            is_shown_at(u as int, shown, offset, scale)
        }),
{
    let n = 64 * (shown - offset);
    let u = n / scale;
    assert(u * scale <= n < (u + 1) * scale) by (nonlinear_arith)
        requires
            0 < scale,
            u == n / scale,
    ;
    assert(-0x80_0000_0000_0000 <= u <= 0x80_0000_0000_0000) by (nonlinear_arith)
        requires
            0 < scale,
            u == n / scale,
            -0x80_0000_0000_0000 <= n <= 0x80_0000_0000_0000,
    ;
    assert((shown - offset) * 64 == n);
}

proof fn lemma_device_pixels(x: int, device_scale: i32)
    requires
        -0x100_0000_0000 <= x <= 0x100_0000_0000,
        0 < device_scale <= 16,
    ensures
        (Fixed { raw: x as i64 }).spec_times(Fixed::spec_from_int(device_scale as i64)).raw == x
            * device_scale,
        -0x1000_0000_0000 <= x * device_scale <= 0x1000_0000_0000,
{
    assert(-0x1000_0000_0000 <= x * device_scale <= 0x1000_0000_0000) by (nonlinear_arith)
        requires
            -0x100_0000_0000 <= x <= 0x100_0000_0000,
            0 < device_scale <= 16,
    ;
    assert((x * (device_scale * 64)) / 64 == x * device_scale) by (nonlinear_arith);
}

/// A position on the widget means the point of the image that is shown there.
pub proof fn lemma_position_means_what_is_shown<D: Drawable<Fixed>>(
    r: RendererState<Fixed, D>,
    pos: Vec2D<Fixed>,
)
    requires
        usual_view(r),
        moderate(pos, 0x100_0000_0000),
    ensures
        ({
            let u = r.abs_canvas_to_image_coordinates(pos);
            let (offset, scale) = (r.area().offset, r.area().scale_factor.raw as int);
            &&& is_shown_at(
                u.x.raw as int,
                pos.x.raw * r.device_scale,
                offset.x.raw as int,
                scale,
            )
            &&& is_shown_at(
                u.y.raw as int,
                pos.y.raw * r.device_scale,
                offset.y.raw as int,
                scale,
            )
        }),
{
    lemma_device_pixels(pos.x.raw as int, r.device_scale);
    lemma_device_pixels(pos.y.raw as int, r.device_scale);
    let scale = r.area().scale_factor.raw as int;
    lemma_shown_at(pos.x.raw * r.device_scale, r.area().offset.x.raw as int, scale);
    lemma_shown_at(pos.y.raw * r.device_scale, r.area().offset.y.raw as int, scale);
}

/// A displacement on the widget means the distance in the image that is shown as long,
/// wherever the image lies.
pub proof fn lemma_displacement_means_what_is_shown<D: Drawable<Fixed>>(
    r: RendererState<Fixed, D>,
    delta: Vec2D<Fixed>,
)
    requires
        usual_view(r),
        moderate(delta, 0x100_0000_0000),
    ensures
        ({
            let v = r.rel_canvas_to_image_coordinates(delta);
            let scale = r.area().scale_factor.raw as int;
            &&& is_shown_at(v.x.raw as int, delta.x.raw * r.device_scale, 0, scale)
            &&& is_shown_at(v.y.raw as int, delta.y.raw * r.device_scale, 0, scale)
        }),
{
    lemma_device_pixels(delta.x.raw as int, r.device_scale);
    lemma_device_pixels(delta.y.raw as int, r.device_scale);
    let scale = r.area().scale_factor.raw as int;
    lemma_shown_at(delta.x.raw * r.device_scale, 0, scale);
    lemma_shown_at(delta.y.raw * r.device_scale, 0, scale);
}

/// Where an offset does not count, any other will do.
pub proof fn lemma_displacement_ignores_offset<S: Scalar, D: Drawable<S>>(
    r: RendererState<S, D>,
    offset: Vec2D<S>,
    delta: Vec2D<S>,
)
    requires
        r.inner is Some,
    ensures
        r.with(AreaState { offset, ..r.area() }).rel_canvas_to_image_coordinates(delta)
            == r.rel_canvas_to_image_coordinates(delta),
{
}

/// A drag from one position to another is as long in the image as the points are apart
/// that the positions mean, up to one step.
pub proof fn lemma_positions_and_displacements_agree<D: Drawable<Fixed>>(
    r: RendererState<Fixed, D>,
    pos: Vec2D<Fixed>,
    delta: Vec2D<Fixed>,
)
    requires
        usual_view(r),
        moderate(pos, 0x80_0000_0000),
        moderate(delta, 0x80_0000_0000),
    ensures
        ({
            let from = r.abs_canvas_to_image_coordinates(pos);
            let to = r.abs_canvas_to_image_coordinates(pos.spec_plus(delta));
            let way = r.rel_canvas_to_image_coordinates(delta);
            &&& 0 <= to.x.raw - from.x.raw - way.x.raw <= 1
            &&& 0 <= to.y.raw - from.y.raw - way.y.raw <= 1
        }),
{
    let from = r.abs_canvas_to_image_coordinates(pos);
    let to = r.abs_canvas_to_image_coordinates(pos.spec_plus(delta));
    let way = r.rel_canvas_to_image_coordinates(delta);
    lemma_position_means_what_is_shown(r, pos);
    lemma_position_means_what_is_shown(r, pos.spec_plus(delta));
    lemma_displacement_means_what_is_shown(r, delta);
    let scale = r.area().scale_factor.raw as int;
    let d = r.device_scale as int;
    lemma_floors_add_up(
        from.x.raw as int,
        to.x.raw as int,
        way.x.raw as int,
        pos.x.raw * d,
        delta.x.raw * d,
        r.area().offset.x.raw as int,
        scale,
    );
    lemma_floors_add_up(
        from.y.raw as int,
        to.y.raw as int,
        way.y.raw as int,
        pos.y.raw * d,
        delta.y.raw * d,
        r.area().offset.y.raw as int,
        scale,
    );
    assert((pos.x.raw + delta.x.raw) * d == pos.x.raw * d + delta.x.raw * d) by (nonlinear_arith);
    assert((pos.y.raw + delta.y.raw) * d == pos.y.raw * d + delta.y.raw * d) by (nonlinear_arith);
}

proof fn lemma_floors_add_up(u: int, v: int, w: int, p: int, d: int, o: int, scale: int)
    requires
        0 < scale,
        is_shown_at(u, p, o, scale),
        is_shown_at(w, d, 0, scale),
    ensures
        is_shown_at(v, p + d, o, scale) ==> 0 <= v - u - w <= 1,
{
    if is_shown_at(v, p + d, o, scale) {
        assert(0 <= v - u - w <= 1) by (nonlinear_arith)
            requires
                0 < scale,
                u * scale <= 64 * (p - o) < (u + 1) * scale,
                w * scale <= 64 * d < (w + 1) * scale,
                v * scale <= 64 * (p + d - o) < (v + 1) * scale,
        ;
    }
}

/// Dragging the view moves the image by the length of the drag, in device pixels, and
/// changes nothing in the image.
pub proof fn lemma_pan_moves_the_image<D: Drawable<Fixed>>(
    r: RendererState<Fixed, D>,
    first: Vec2D<Fixed>,
    second: Vec2D<Fixed>,
)
    requires
        r.inner is Some,
        0 < r.device_scale <= 16,
        !r.area().zoom_changed(),
        !r.area().is_reset,
        r.canvas_width <= i32::MAX,
        r.canvas_height <= i32::MAX,
        moderate(first, 0x100_0000_0000),
        moderate(second, 0x100_0000_0000),
        moderate(r.area().last_offset, 0x1_0000_0000_0000),
        0 <= r.resize(0, 0).area().scale_factor.raw <= 0x1000_0000,
    ensures
        ({
            let a = r.set_drag_offset(first);
            let b = r.set_drag_offset(second);
            let d = r.device_scale;
            &&& b.area().offset.x.raw - a.area().offset.x.raw == second.x.raw * d - first.x.raw * d
            &&& b.area().offset.y.raw - a.area().offset.y.raw == second.y.raw * d - first.y.raw * d
            &&& a.area().scale_factor == b.area().scale_factor
            &&& same_but_view(a, r)
        }),
{
    let t = r.resize(0, 0).area();
    lemma_middle(r.canvas_width as int, t.image_width as int, t.scale_factor.raw as int);
    lemma_middle(r.canvas_height as int, t.image_height as int, t.scale_factor.raw as int);
    lemma_device_pixels(first.x.raw as int, r.device_scale);
    lemma_device_pixels(first.y.raw as int, r.device_scale);
    lemma_device_pixels(second.x.raw as int, r.device_scale);
    lemma_device_pixels(second.y.raw as int, r.device_scale);
    let a = r.set_drag_offset(first);
    assert(a.area().scale_factor == t.scale_factor);
}

/// The next drag of the view begins where the last one was left: two drags move the
/// image as far as one that is as long as both.
pub proof fn lemma_pans_add_up<D: Drawable<Fixed>>(
    r: RendererState<Fixed, D>,
    first: Vec2D<Fixed>,
    second: Vec2D<Fixed>,
)
    requires
        r.inner is Some,
        0 < r.device_scale <= 16,
        !r.area().zoom_changed(),
        !r.area().is_reset,
        moderate(first, 0x80_0000_0000),
        moderate(second, 0x80_0000_0000),
        moderate(r.area().last_offset, 0x1_0000_0000_0000),
    ensures
        ({
            let a = r.set_drag_offset(first);
            let b = a.with(a.area().store_last_offset()).set_drag_offset(second);
            let c = r.set_drag_offset(first.spec_plus(second));
            &&& b.area().offset == c.area().offset
            &&& b.area().scale_factor == c.area().scale_factor
        }),
{
    lemma_device_pixels(first.x.raw as int, r.device_scale);
    lemma_device_pixels(first.y.raw as int, r.device_scale);
    lemma_device_pixels(second.x.raw as int, r.device_scale);
    lemma_device_pixels(second.y.raw as int, r.device_scale);
    lemma_device_pixels(first.x.raw + second.x.raw, r.device_scale);
    lemma_device_pixels(first.y.raw + second.y.raw, r.device_scale);
    let d = r.device_scale as int;
    assert((first.x.raw + second.x.raw) * d == first.x.raw * d + second.x.raw * d)
        by (nonlinear_arith);
    assert((first.y.raw + second.y.raw) * d == first.y.raw * d + second.y.raw * d)
        by (nonlinear_arith);
}

/// Zooming multiplies the scale that is shown by the factor, up to rounding: a factor
/// above one never makes the image smaller, and one below never larger. While the image
/// is dragged the scale stays.
pub proof fn lemma_zoom_multiplies_the_scale<D: Drawable<Fixed>>(
    r: RendererState<Fixed, D>,
    factor: Fixed,
)
    requires
        r.inner is Some,
        0 < factor.raw <= 0x1_0000,
        0 <= r.area().zoom_scale.raw <= 0x1000_0000,
        0 < r.area().scale_factor.raw <= 0x1000_0000,
    ensures
        ({
            let t = r.set_zoom_scale(factor);
            let base = if r.area().zoom_scale.raw == 0 {
                r.area().scale_factor.raw as int
            } else {
                r.area().zoom_scale.raw as int
            };
            let new = t.area().zoom_scale.raw as int;
            &&& r.area().is_drag ==> t.area().zoom_scale == r.area().zoom_scale
            &&& !r.area().is_drag ==> {
                &&& new * 64 <= base * factor.raw < (new + 1) * 64
                &&& factor.raw >= 64 ==> new >= base
                &&& factor.raw <= 64 ==> new <= base
                &&& new > 0 ==> t.area().scale_factor.raw == new
            }
            &&& same_but_view(t, r)
        }),
{
    let base = if r.area().zoom_scale.raw == 0 {
        r.area().scale_factor.raw as int
    } else {
        r.area().zoom_scale.raw as int
    };
    let f = factor.raw as int;
    assert(0 <= base * f <= 0x1000_0000_0000) by (nonlinear_arith)
        requires
            0 <= base <= 0x1000_0000,
            0 < f <= 0x1_0000,
    ;
    assert(f >= 64 ==> base * f >= base * 64) by (nonlinear_arith)
        requires
            0 <= base,
    ;
    assert(f <= 64 ==> base * f <= base * 64) by (nonlinear_arith)
        requires
            0 <= base,
    ;
}

/// An image that was just opened without a scale of its own fits the window.
pub proof fn lemma_opened_image_fits<D: Drawable<Fixed>>(
    r: RendererState<Fixed, D>,
    tool: Tools,
    image_width: i32,
    image_height: i32,
    width: i32,
    height: i32,
)
    requires
        0 < width <= 0x100_0000,
        0 < height <= 0x100_0000,
        0 < image_width,
        0 < image_height,
    ensures
        ({
            let opened = r.with(AreaState::fresh(tool, image_width, image_height, None));
            let area = opened.resize(width, height).area();
            let scale = area.scale_factor.raw;
            &&& area.drawables.len() == 0
            &&& scale * image_height <= 64 * height
            &&& scale * (64 * image_width - image_height) <= 4096 * width
            &&& scale <= 0x1000_0000 ==> {
                &&& in_the_middle(
                    area.offset.x.raw as int,
                    width as int,
                    image_width as int,
                    scale as int,
                )
                &&& in_the_middle(
                    area.offset.y.raw as int,
                    height as int,
                    image_height as int,
                    scale as int,
                )
            }
        }),
{
    let opened = r.with(AreaState::<Fixed, D>::fresh(tool, image_width, image_height, None));
    lemma_resized_image_fits(opened, width, height);
    if opened.resize(width, height).area().scale_factor.raw <= 0x1000_0000 {
        lemma_resized_image_is_centered(opened, width, height);
    }
}

/// Zooming keeps the point of the image under the pointer that was there before: the
/// position of the pointer means the same point, up to rounding.
pub proof fn lemma_zoom_keeps_what_the_pointer_means<D: Drawable<Fixed>>(
    r: RendererState<Fixed, D>,
    pos: Vec2D<Fixed>,
    factor: Fixed,
)
    requires
        r.inner is Some,
        0 < r.device_scale <= 16,
        moderate(pos, 0x10_0000_0000),
        moderate(r.area().offset, 0x100_0000_0000),
        0 < r.area().scale_factor.raw,
        !r.area().is_drag,
        !r.area().is_reset,
        0 < r.set_zoom_scale(factor).area().zoom_scale.raw <= 0x1_0000,
        r.set_zoom_scale(factor).area().zoom_scale != r.area().last_scale,
    ensures
        ({
            let before = r.set_pointer_offset(pos);
            let after = before.set_zoom_scale(factor);
            let u = before.abs_canvas_to_image_coordinates(pos);
            let v = after.abs_canvas_to_image_coordinates(pos);
            &&& almost(u.x, v.x, after.area().zoom_scale)
            &&& almost(u.y, v.y, after.area().zoom_scale)
        }),
{
    let before = r.set_pointer_offset(pos);
    let ready = before.area().set_zoom_scale(factor, false);
    let d = r.device_scale as int;
    lemma_device_pixels(pos.x.raw as int, r.device_scale);
    lemma_device_pixels(pos.y.raw as int, r.device_scale);
    assert(-0x100_0000_0000 <= pos.x.raw * d <= 0x100_0000_0000) by (nonlinear_arith)
        requires
            -0x10_0000_0000 <= pos.x.raw <= 0x10_0000_0000,
            0 < d <= 16,
    ;
    assert(-0x100_0000_0000 <= pos.y.raw * d <= 0x100_0000_0000) by (nonlinear_arith)
        requires
            -0x10_0000_0000 <= pos.y.raw <= 0x10_0000_0000,
            0 < d <= 16,
    ;
    assert(ready.zoom_scale == r.set_zoom_scale(factor).area().zoom_scale);
    lemma_zoom_keeps_point_under_pointer(ready, r.canvas_width, r.canvas_height);
}

} // verus!

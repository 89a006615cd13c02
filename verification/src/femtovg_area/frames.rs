//! What frames are for: the screen and the export show the same annotations, from
//! bottom to top, and marks on the screen keep their size.
use vstd::prelude::*;

use crate::configuration::Action;
use crate::femtovg_area::background::{
    transparency_color, Layer, TransparencyStep, TRANSPARENCY_TILE,
};
use crate::femtovg_area::state::{spec_cursor_for_handle, AreaState, SelectionFocusState};
use crate::femtovg_area::RendererState;
use crate::fixed::Fixed;
use crate::math::{Scalar, Vec2D};
use crate::tools::edit::{handle_dot, screen_length, EditHandle};
use crate::tools::hits::opposite_handle;
use crate::tools::{handles_of, Drawable};

verus! {

/// The layers that only help on the screen.
pub open spec fn is_aid(layer: Layer) -> bool {
    layer is Selection || layer is Crop
}

/// The layers without those that only help on the screen.
#[verifier::opaque]
pub open spec fn without_aids(layers: Seq<Layer>) -> Seq<Layer> {
    layers.filter(|layer: Layer| !is_aid(layer))
}

/// The layers, with one more on top if it is shown.
pub open spec fn topped(layers: Seq<Layer>, shown: bool, layer: Layer) -> Seq<Layer> {
    if shown {
        layers.push(layer)
    } else {
        layers
    }
}

/// The layers that every frame has: the image and the objects.
pub open spec fn common_layers(count: nat) -> Seq<Layer> {
    seq![Layer::Clear, Layer::Background] + Seq::new(count, |i: int| Layer::Object(i as usize))
}

proof fn lemma_layers_by_layers<S: Scalar, D: Drawable<S>>(
    s: AreaState<S, D>,
    tool_draws: bool,
    crop_shown: bool,
    onscreen: bool,
)
    ensures
        s.layers(tool_draws, crop_shown, onscreen) == topped(
            topped(
                topped(
                    common_layers(s.drawables.len()),
                    onscreen && s.active_tool is Pointer,
                    Layer::Selection,
                ),
                tool_draws,
                Layer::ActiveTool,
            ),
            crop_shown,
            Layer::Crop,
        ),
{
    let none = Seq::<Layer>::empty();
    let a = common_layers(s.drawables.len());
    let selects = onscreen && s.active_tool is Pointer;
    let b = topped(a, selects, Layer::Selection);
    assert(b =~= a + if selects {
        seq![Layer::Selection]
    } else {
        none
    });
    let c = topped(b, tool_draws, Layer::ActiveTool);
    assert(c =~= b + if tool_draws {
        seq![Layer::ActiveTool]
    } else {
        none
    });
    let d = topped(c, crop_shown, Layer::Crop);
    assert(d =~= c + if crop_shown {
        seq![Layer::Crop]
    } else {
        none
    });
}

/// An export shows what the screen shows, without the marks that only help there: the
/// selection and the border of the region.
pub proof fn lemma_export_shows_what_the_screen_shows<S: Scalar, D: Drawable<S>>(
    s: AreaState<S, D>,
    tool_draws: bool,
    crop_shown: bool,
)
    ensures
        s.layers(tool_draws, false, false) == without_aids(s.layers(tool_draws, crop_shown, true)),
{
    let base = common_layers(s.drawables.len());
    assert forall|i: int| 0 <= i < base.len() implies !is_aid(#[trigger] base[i]) by {}
    lemma_nothing_is_left_out(base);
    lemma_layers_by_layers(s, tool_draws, false, false);
    lemma_layers_by_layers(s, tool_draws, crop_shown, true);
    let with_selection = topped(base, s.active_tool is Pointer, Layer::Selection);
    let with_tool = topped(with_selection, tool_draws, Layer::ActiveTool);
    lemma_one_more_layer(base, Layer::Selection);
    lemma_one_more_layer(with_selection, Layer::ActiveTool);
    lemma_one_more_layer(with_tool, Layer::Crop);
}

proof fn lemma_one_more_layer(layers: Seq<Layer>, layer: Layer)
    ensures
        without_aids(layers.push(layer)) == topped(without_aids(layers), !is_aid(layer), layer),
{
    reveal(without_aids);
    reveal(Seq::filter);
    assert(layers.push(layer).drop_last() =~= layers);
}

proof fn lemma_nothing_is_left_out(layers: Seq<Layer>)
    requires
        forall|i: int| 0 <= i < layers.len() ==> !is_aid(#[trigger] layers[i]),
    ensures
        without_aids(layers) == layers,
    decreases layers.len(),
{
    if layers.len() > 0 {
        let before = layers.drop_last();
        assert forall|i: int| 0 <= i < before.len() implies !is_aid(#[trigger] before[i]) by {
            assert(before[i] == layers[i]);
        }
        lemma_nothing_is_left_out(before);
        lemma_one_more_layer(before, layers.last());
        assert(!is_aid(layers[layers.len() - 1]));
        assert(before.push(layers.last()) =~= layers);
    } else {
        reveal(without_aids);
        reveal(Seq::filter);
        assert(without_aids(layers) =~= layers);
    }
}

/// Every frame begins with the image on a clear canvas, then come all objects in their
/// order, and what the active tool draws is there if and only if it draws. The
/// selection and the region are marked above the objects, and on top of everything.
pub proof fn lemma_layers_of_a_frame<S: Scalar, D: Drawable<S>>(
    s: AreaState<S, D>,
    tool_draws: bool,
    crop_shown: bool,
    onscreen: bool,
)
    requires
        s.drawables.len() <= usize::MAX,
    ensures
        ({
            let layers = s.layers(tool_draws, crop_shown, onscreen);
            let n = s.drawables.len();
            &&& layers.len() >= 2 + n
            &&& layers[0] is Clear
            &&& layers[1] is Background
            &&& forall|i: int| 0 <= i < n ==> #[trigger] layers[2 + i] == Layer::Object(i as usize)
            &&& forall|i: int|
                2 + n <= i < layers.len() ==> {
                    ||| #[trigger] layers[i] is Selection
                    ||| layers[i] is ActiveTool
                    ||| layers[i] is Crop
                }
            &&& layers.contains(Layer::ActiveTool) <==> tool_draws
            &&& layers.contains(Layer::Crop) <==> crop_shown
            &&& crop_shown ==> layers.last() is Crop
            &&& layers.contains(Layer::Selection) <==> onscreen && s.active_tool is Pointer
            &&& layers.no_duplicates()
        }),
{
    let layers = s.layers(tool_draws, crop_shown, onscreen);
    let n = s.drawables.len() as int;
    let selects = onscreen && s.active_tool is Pointer;
    if selects {
        assert(layers[2 + n] is Selection);
    }
    if tool_draws {
        let at = 2 + n + if selects {
            1int
        } else {
            0
        };
        assert(layers[at] is ActiveTool);
    }
    if crop_shown {
        assert(layers[layers.len() - 1] is Crop);
    }
}

/// The frame that is drawn around the selection is that of the selected object.
pub proof fn lemma_frame_is_around_the_selected_object<S: Scalar, D: Drawable<S>>(
    s: AreaState<S, D>,
    index: usize,
)
    requires
        index < s.drawables.len(),
    ensures
        ({
            let selected = AreaState {
                selection_focus: SelectionFocusState {
                    selected: Some(index),
                    ..s.selection_focus
                },
                ..s
            };
            let object = s.drawables[index as int];
            match selected.selection_frame() {
                Some((bounds, handles)) => {
                    &&& object.spec_edit_bounds() == Some(bounds)
                    &&& handles == handles_of(object)
                },
                None => object.spec_edit_bounds() is None,
            }
        }),
        s.clear_target().selection_frame() is None,
{
}

/// The region that is exported is the cropped one, unless that is empty or there is
/// none: then it is the whole image, from its top left corner.
pub proof fn lemma_exported_region<D: Drawable<Fixed>>(
    s: AreaState<Fixed, D>,
    pos: Vec2D<Fixed>,
    size: Vec2D<Fixed>,
)
    ensures
        ({
            let whole = s.export_region(None);
            &&& (whole.0.x.raw, whole.0.y.raw) == (0i64, 0i64)
            &&& whole.1.x.raw == s.image_width * 64
            &&& whole.1.y.raw == s.image_height * 64
            &&& size.x.raw != 0 || size.y.raw != 0 ==> s.export_region(Some((pos, size))) == (
                pos,
                size,
            )
            &&& size.x.raw == 0 && size.y.raw == 0 ==> s.export_region(Some((pos, size))) == whole
        }),
{
}

/// The pattern of transparency is made once and then drawn on the screen, and an
/// export does not draw it once it is made.
pub proof fn lemma_pattern_is_for_the_screen<S: Scalar, D: Drawable<S>>(s: AreaState<S, D>)
    ensures
        ({
            let made = AreaState { transparency_created: true, ..s };
            &&& made.transparency_step(true) is Reuse
            &&& made.transparency_step(false) is Skip
            &&& !s.transparency_created ==> forall|onscreen: bool|
                #[trigger] s.transparency_step(onscreen) == TransparencyStep::Create
        }),
{
}

/// The pattern of transparency can be laid side by side: it repeats after its own
/// size.
pub proof fn lemma_pattern_repeats(x: int, y: int)
    requires
        0 <= x,
        0 <= y,
    ensures
        transparency_color(x + TRANSPARENCY_TILE, y) == transparency_color(x, y),
        transparency_color(x, y + TRANSPARENCY_TILE) == transparency_color(x, y),
        transparency_color(x, y).a == 255,
{
}

/// A length on the screen is the same at every scale from one hundredth on: as many
/// half pixels as were asked for, up to rounding.
pub proof fn lemma_screen_length_is_constant(half_pixels: i64, scale: Fixed)
    requires
        0 <= half_pixels <= 1000,
        1 <= scale.raw <= 0x1_0000_0000,
    ensures
        ({
            let length = screen_length(half_pixels, scale).raw;
            length * scale.raw <= half_pixels * 32 * 64 < (length + 1) * scale.raw
        }),
{
    let n = half_pixels * 32 * 64;
    let d = scale.raw as int;
    let q = n / d;
    assert(q * d <= n < (q + 1) * d && 0 <= q <= n) by (nonlinear_arith)
        requires
            0 < d,
            0 <= n,
            q == n / d,
    ;
    assert((half_pixels * 64 * 64) / 128 == half_pixels * 32);
    assert(screen_length(half_pixels, scale).raw == q);
}

/// Handles are circles of five pixels around their places, with a border of one and a
/// half pixels.
pub proof fn lemma_handles_have_one_size(center: Vec2D<Fixed>, scale: Fixed)
    requires
        1 <= scale.raw <= 0x1_0000_0000,
    ensures
        ({
            let dot = handle_dot(center, scale);
            let (radius, width) = (dot.radius.raw, dot.line_width.raw);
            &&& dot.center == center
            &&& radius * scale.raw <= 5 * 64 * 64 < (radius + 1) * scale.raw
            &&& 2 * (width * scale.raw) <= 3 * 64 * 64 < 2 * ((width + 1) * scale.raw)
        }),
{
    lemma_screen_length_is_constant(10, scale);
    lemma_screen_length_is_constant(3, scale);
}

/// Objects are touched from ten pixels on the screen away, at every scale from one
/// hundredth on.
pub proof fn lemma_reach_is_ten_pixels<D: Drawable<Fixed>>(s: AreaState<Fixed, D>)
    requires
        1 <= s.scale_factor.raw <= 0x1_0000_0000,
    ensures
        ({
            let reach = s.object_hit_tolerance().raw;
            let scale = s.scale_factor.raw;
            reach * scale <= 10 * 64 * 64 < (reach + 1) * scale
        }),
{
    let n = 10 * 64 * 64int;
    let d = s.scale_factor.raw as int;
    let q = n / d;
    assert(q * d <= n < (q + 1) * d && 0 <= q <= n) by (nonlinear_arith)
        requires
            0 < d,
            0 <= n,
            q == n / d,
    ;
    assert(s.object_hit_tolerance().raw == q);
}

/// Actions that are asked for are given out with the next frame, once, and a frame that
/// is due is drawn once.
pub proof fn lemma_actions_are_given_out_once<S: Scalar, D: Drawable<S>>(
    r: RendererState<S, D>,
    actions: Seq<Action>,
)
    ensures
        ({
            let (begun, given) = r.request_render(actions).begin_frame();
            &&& given == Some(actions)
            &&& r.request_render(actions).render_queued
            &&& begun.begin_frame().1 is None
            &&& !begun.render_queued
            &&& begun.inner == r.inner
            &&& begun.cursor == r.cursor
        }),
{
}

/// Handles on opposite sides of a box are dragged along the same line and show the same
/// cursor; handles on neighbouring sides do not.
pub proof fn lemma_cursors_of_handles(handle: EditHandle)
    ensures
        ({
            let cursor = spec_cursor_for_handle(handle);
            &&& spec_cursor_for_handle(opposite_handle(handle)) == cursor
            &&& cursor is ResizeEw <==> handle is Left || handle is Right
            &&& cursor is ResizeNs <==> handle is Top || handle is Bottom
            &&& cursor is ResizeNwSe <==> handle is TopLeft || handle is BottomRight
            &&& cursor is ResizeNeSw <==> handle is TopRight || handle is BottomLeft
            &&& cursor is ResizeAll <==> handle is Start || handle is End
            &&& cursor !is Move
        }),
{
}

} // verus!

//! What is drawn in a frame, and the pixels below the annotations.
use vstd::arithmetic::div_mod::lemma_fundamental_div_mod_converse;
use vstd::prelude::*;

use crate::femtovg_area::frames::lemma_layers_of_a_frame;
use crate::femtovg_area::imp::FemtoVgAreaMut;
use crate::femtovg_area::state::AreaState;
use crate::math::{Scalar, Vec2D};
use crate::sketch_board::image::{RenderedImage, Rgba};
use crate::tools::edit::{EditHandle, ObjectBounds};
use crate::tools::{handles_of, Drawable, Tools};

verus! {

#[derive(Debug, Clone, Copy, PartialEq, Eq, Structural)]
pub struct Rgb {
    pub r: u8,
    pub g: u8,
    pub b: u8,
}

/// The pixels of the image below the annotations, row by row without gaps.
#[derive(Debug, Clone)]
pub enum BackgroundPixels {
    Rgb(Vec<Rgb>),
    Rgba(Vec<Rgba>),
}

/// The bytes of a pixel.
pub open spec fn channels(has_alpha: bool) -> int {
    if has_alpha {
        4
    } else {
        3
    }
}

/// Rows that start `stride` bytes apart, each with `width` pixels, lie within
/// `len` bytes, and so do all their pixels put together.
pub open spec fn rows_fit(len: int, width: int, height: int, stride: int, has_alpha: bool) -> bool {
    &&& width > 0
    &&& height > 0 ==> (height - 1) * stride + width * channels(has_alpha) <= len
    &&& width * height * channels(has_alpha) <= usize::MAX
}

/// Tells whether the rows of an image lie within `len` bytes.
pub fn rows_are_complete(
    len: usize,
    width: usize,
    height: usize,
    stride: usize,
    has_alpha: bool,
) -> (r: bool)
    ensures
        r == rows_fit(len as int, width as int, height as int, stride as int, has_alpha),
{
    let n: usize = if has_alpha {
        4
    } else {
        3
    };
    let Some(pixels) = width.checked_mul(height) else {
        assert(width * height * n >= width * height) by (nonlinear_arith)
            requires
                width * height >= 0,
                n >= 1,
        ;
        return false;
    };
    if pixels.checked_mul(n).is_none() || width == 0 {
        return false;
    }
    if height == 0 {
        return true;
    }
    let Some(row) = width.checked_mul(n) else {
        assert((height - 1) * stride >= 0) by (nonlinear_arith)
            requires
                height >= 1,
                stride >= 0,
        ;
        return false;
    };
    match (height - 1).checked_mul(stride) {
        Some(start) => match start.checked_add(row) {
            Some(end) => end <= len,
            None => false,
        },
        None => false,
    }
}

pub open spec fn rgba_at(bytes: Seq<u8>, at: int) -> Rgba {
    Rgba { r: bytes[at], g: bytes[at + 1], b: bytes[at + 2], a: bytes[at + 3] }
}

pub open spec fn rgb_at(bytes: Seq<u8>, at: int) -> Rgb {
    Rgb { r: bytes[at], g: bytes[at + 1], b: bytes[at + 2] }
}

/// Where the pixel with number `i`, counted row by row, starts.
pub open spec fn pixel_start(i: int, width: int, stride: int, has_alpha: bool) -> int {
    (i / width) * stride + (i % width) * channels(has_alpha)
}

pub open spec fn rgba_pixels(bytes: Seq<u8>, width: int, height: int, stride: int) -> Seq<Rgba> {
    Seq::new(
        (width * height) as nat,
        |i: int| rgba_at(bytes, pixel_start(i, width, stride, true)),
    )
}

pub open spec fn rgb_pixels(bytes: Seq<u8>, width: int, height: int, stride: int) -> Seq<Rgb> {
    Seq::new(
        (width * height) as nat,
        |i: int| rgb_at(bytes, pixel_start(i, width, stride, false)),
    )
}

/// The pixel in column `x` of row `y` is the one with number `y * width + x`, and
/// its bytes lie within the buffer.
proof fn lemma_pixel_start(
    len: int,
    x: int,
    y: int,
    width: int,
    height: int,
    stride: int,
    has_alpha: bool,
)
    requires
        rows_fit(len, width, height, stride, has_alpha),
        0 <= x < width,
        0 <= y < height,
        0 <= stride,
    ensures
        pixel_start(y * width + x, width, stride, has_alpha) == y * stride + x * channels(
            has_alpha,
        ),
        0 <= y * stride <= y * stride + x * channels(has_alpha),
        y * stride + x * channels(has_alpha) + channels(has_alpha) <= len,
        0 <= y * width + x < width * height,
{
    let n = channels(has_alpha);
    lemma_fundamental_div_mod_converse(y * width + x, width, y, x);
    assert(y * stride <= (height - 1) * stride && 0 <= y * stride) by (nonlinear_arith)
        requires
            0 <= y <= height - 1,
            0 <= stride,
    ;
    assert(x * n + n <= width * n && 0 <= x * n) by (nonlinear_arith)
        requires
            0 <= x <= width - 1,
            0 <= n,
    ;
    assert(0 <= y * width && y * width + x < width * height) by (nonlinear_arith)
        requires
            0 <= x < width,
            0 <= y <= height - 1,
    ;
}

/// The pixel in column `x` of row `y` comes from where the stride says.
pub proof fn lemma_background_pixel(
    bytes: Seq<u8>,
    x: int,
    y: int,
    width: int,
    height: int,
    stride: int,
)
    requires
        0 <= x < width,
        0 <= y < height,
        0 <= stride,
    ensures
        rows_fit(bytes.len() as int, width, height, stride, true) ==> rgba_pixels(
            bytes,
            width,
            height,
            stride,
        )[y * width + x] == rgba_at(bytes, y * stride + x * 4),
        rows_fit(bytes.len() as int, width, height, stride, false) ==> rgb_pixels(
            bytes,
            width,
            height,
            stride,
        )[y * width + x] == rgb_at(bytes, y * stride + x * 3),
{
    if rows_fit(bytes.len() as int, width, height, stride, true) {
        lemma_pixel_start(bytes.len() as int, x, y, width, height, stride, true);
    }
    if rows_fit(bytes.len() as int, width, height, stride, false) {
        lemma_pixel_start(bytes.len() as int, x, y, width, height, stride, false);
    }
}

/// Reads the pixels out of a buffer whose rows start `stride` bytes apart. Bytes
/// after the end of a row, and after the last row, are left out.
pub fn background_pixels(
    bytes: &[u8],
    width: usize,
    height: usize,
    stride: usize,
    has_alpha: bool,
) -> (r: BackgroundPixels)
    requires
        rows_fit(
            bytes@.len() as int,
            width as int,
            height as int,
            stride as int,
            has_alpha,
        ),
    ensures
        match r {
            BackgroundPixels::Rgba(pixels) => has_alpha && pixels@ == rgba_pixels(
                bytes@,
                width as int,
                height as int,
                stride as int,
            ),
            BackgroundPixels::Rgb(pixels) => !has_alpha && pixels@ == rgb_pixels(
                bytes@,
                width as int,
                height as int,
                stride as int,
            ),
        },
{
    let ghost (len, w, h, s) = (bytes@.len() as int, width as int, height as int, stride as int);
    let mut rgba: Vec<Rgba> = Vec::new();
    let mut rgb: Vec<Rgb> = Vec::new();
    let mut y: usize = 0;
    assert(bytes.len() <= usize::MAX);
    while y < height
        invariant
            y <= height,
            len == bytes@.len() <= usize::MAX,
            (w, h, s) == (width as int, height as int, stride as int),
            rows_fit(len, w, h, s, has_alpha),
            has_alpha ==> rgba@ =~= rgba_pixels(bytes@, w, h, s).take(y * w),
            !has_alpha ==> rgb@ =~= rgb_pixels(bytes@, w, h, s).take(y * w),
            0 <= y * w <= w * h,
        decreases height - y,
    {
        let mut x: usize = 0;
        while x < width
            invariant
                x <= width,
                y < height,
                len == bytes@.len() <= usize::MAX,
                (w, h, s) == (width as int, height as int, stride as int),
                rows_fit(len, w, h, s, has_alpha),
                0 <= y * w + x <= w * h,
                has_alpha ==> rgba@ =~= rgba_pixels(bytes@, w, h, s).take(y * w + x),
                !has_alpha ==> rgb@ =~= rgb_pixels(bytes@, w, h, s).take(y * w + x),
            decreases width - x,
        {
            proof {
                lemma_pixel_start(len, x as int, y as int, w, h, s, has_alpha);
            }
            let row: usize = y * stride;
            if has_alpha {
                let at: usize = row + x * 4;
                rgba.push(
                    Rgba { r: bytes[at], g: bytes[at + 1], b: bytes[at + 2], a: bytes[at + 3] },
                );
            } else {
                let at: usize = row + x * 3;
                rgb.push(Rgb { r: bytes[at], g: bytes[at + 1], b: bytes[at + 2] });
            }
            x = x + 1;
        }
        assert((y + 1) * w == y * w + w) by (nonlinear_arith);
        assert((y + 1) * w <= w * h) by (nonlinear_arith)
            requires
                y + 1 <= h,
                0 < w,
        ;
        y = y + 1;
    }
    assert(h * w == w * h) by (nonlinear_arith);
    if has_alpha {
        assert(rgba_pixels(bytes@, w, h, s).take(w * h) =~= rgba_pixels(bytes@, w, h, s));
        BackgroundPixels::Rgba(rgba)
    } else {
        assert(rgb_pixels(bytes@, w, h, s).take(w * h) =~= rgb_pixels(bytes@, w, h, s));
        BackgroundPixels::Rgb(rgb)
    }
}

/// The side of a square of the pattern that shows transparency.
pub const TRANSPARENCY_SQUARE_SIZE: usize = 64;

/// The side of the pattern before it repeats.
pub const TRANSPARENCY_TILE: usize = 128;

/// The color of the pattern in column `x` of row `y`: neighbouring squares differ.
pub open spec fn transparency_color(x: int, y: int) -> Rgba {
    if (x / TRANSPARENCY_SQUARE_SIZE as int + y / TRANSPARENCY_SQUARE_SIZE as int) % 2 == 1 {
        Rgba { r: 153, g: 153, b: 153, a: 255 }
    } else {
        Rgba { r: 204, g: 204, b: 204, a: 255 }
    }
}

/// Squares of the pattern that share an edge have different colors.
pub proof fn lemma_squares_alternate(x: int, y: int)
    requires
        0 <= x,
        0 <= y,
    ensures
        transparency_color(x + TRANSPARENCY_SQUARE_SIZE, y) != transparency_color(x, y),
        transparency_color(x, y + TRANSPARENCY_SQUARE_SIZE) != transparency_color(x, y),
{
}

/// The pattern that shows through where the image is transparent.
pub fn transparency_tile() -> (r: RenderedImage)
    ensures
        r.width == TRANSPARENCY_TILE,
        r.height == TRANSPARENCY_TILE,
        r.stride == TRANSPARENCY_TILE,
        r.pixels@ == Seq::new(
            (TRANSPARENCY_TILE * TRANSPARENCY_TILE) as nat,
            |i: int| transparency_color(i % TRANSPARENCY_TILE as int, i / TRANSPARENCY_TILE as int),
        ),
{
    let mut pixels: Vec<Rgba> = Vec::new();
    let total: usize = TRANSPARENCY_TILE * TRANSPARENCY_TILE;
    let mut i: usize = 0;
    while i < total
        invariant
            i <= total,
            total == TRANSPARENCY_TILE * TRANSPARENCY_TILE,
            pixels@ == Seq::new(
                i as nat,
                |i: int| transparency_color(
                    i % TRANSPARENCY_TILE as int,
                    i / TRANSPARENCY_TILE as int,
                ),
            ),
        decreases total - i,
    {
        let x: usize = i % TRANSPARENCY_TILE;
        let y: usize = i / TRANSPARENCY_TILE;
        let dark = (x / TRANSPARENCY_SQUARE_SIZE + y / TRANSPARENCY_SQUARE_SIZE) % 2 == 1;
        if dark {
            pixels.push(Rgba { r: 153, g: 153, b: 153, a: 255 });
        } else {
            pixels.push(Rgba { r: 204, g: 204, b: 204, a: 255 });
        }
        i = i + 1;
    }
    RenderedImage {
        pixels,
        width: TRANSPARENCY_TILE,
        height: TRANSPARENCY_TILE,
        stride: TRANSPARENCY_TILE,
    }
}

/// One thing that is drawn in a frame.
#[derive(Debug, Clone, Copy, PartialEq, Eq, Structural)]
pub enum Layer {
    /// Clear the canvas.
    Clear,
    /// Draw the image.
    Background,
    /// Draw the object with this number.
    Object(usize),
    /// Show which object is selected.
    Selection,
    /// Draw what the active tool is drawing.
    ActiveTool,
    /// Draw the border of the region that will be exported.
    Crop,
}

/// What is done about the pattern that shows transparency.
#[derive(Debug, Clone, Copy, PartialEq, Eq, Structural)]
pub enum TransparencyStep {
    /// Draw the pattern that was made before.
    Reuse,
    /// Make the pattern, and draw it if that succeeds.
    Create,
    /// Draw no pattern.
    Skip,
}

impl<S: Scalar, D: Drawable<S>> AreaState<S, D> {
    /// A frame from bottom to top.
    pub open spec fn layers(
        self,
        tool_draws: bool,
        crop_shown: bool,
        onscreen: bool,
    ) -> Seq<Layer> {
        seq![Layer::Clear, Layer::Background] + Seq::new(
            self.drawables.len(),
            |i: int| Layer::Object(i as usize),
        ) + (if onscreen && self.active_tool is Pointer {
            seq![Layer::Selection]
        } else {
            Seq::<Layer>::empty()
        }) + (if tool_draws {
            seq![Layer::ActiveTool]
        } else {
            Seq::<Layer>::empty()
        }) + (if crop_shown {
            seq![Layer::Crop]
        } else {
            Seq::<Layer>::empty()
        })
    }

    /// The frame around the selected object and its handles.
    pub open spec fn selection_frame(self) -> Option<
        (ObjectBounds<S>, Seq<(EditHandle, Vec2D<S>)>),
    > {
        match self.selection_focus.selected {
            Some(index) if index < self.drawables.len()
                && self.drawables[index as int].spec_edit_bounds() is Some => Some(
                (
                    self.drawables[index as int].spec_edit_bounds()->0,
                    handles_of(self.drawables[index as int]),
                ),
            ),
            _ => None,
        }
    }

    /// The pattern is drawn on the screen only, except in the frame that makes it.
    pub open spec fn transparency_step(self, onscreen: bool) -> TransparencyStep {
        if !self.transparency_created {
            TransparencyStep::Create
        } else if onscreen {
            TransparencyStep::Reuse
        } else {
            TransparencyStep::Skip
        }
    }

    /// The position and the size of what is exported: the cropped region, or the
    /// whole image if nothing is cropped or the region is empty.
    pub open spec fn export_region(self, crop: Option<(Vec2D<S>, Vec2D<S>)>) -> (
        Vec2D<S>,
        Vec2D<S>,
    ) {
        match crop {
            Some((pos, size)) if !size.spec_is_zero() => (pos, size),
            _ => (Vec2D::spec_zero(), self.image_size()),
        }
    }
}

impl<S: Scalar, D: Drawable<S>> FemtoVgAreaMut<S, D> {
    /// What is drawn in a frame, from bottom to top. The cropped region is marked
    /// on the screen only.
    fn layers(&self, tool_draws: bool, crop_shown: bool, onscreen: bool) -> (r: Vec<Layer>)
        ensures
            r@ == self@.layers(tool_draws, crop_shown, onscreen),
    {
        let mut layers: Vec<Layer> = Vec::new();
        layers.push(Layer::Clear);
        layers.push(Layer::Background);
        let mut k: usize = 0;
        while k < self.drawables.len()
            invariant
                k <= self.drawables@.len(),
                layers@ =~= seq![Layer::Clear, Layer::Background] + Seq::new(
                    k as nat,
                    |i: int| Layer::Object(i as usize),
                ),
            decreases self.drawables@.len() - k,
        {
            layers.push(Layer::Object(k));
            k = k + 1;
        }
        if onscreen && self.active_tool == Tools::Pointer {
            layers.push(Layer::Selection);
        }
        if tool_draws {
            layers.push(Layer::ActiveTool);
        }
        if crop_shown {
            layers.push(Layer::Crop);
        }
        assert(layers@ =~= self@.layers(tool_draws, crop_shown, onscreen));
        layers
    }

    /// The layers of a frame on the screen.
    pub fn render_framebuffer(&self, tool_draws: bool, has_crop: bool) -> (r: Vec<Layer>)
        ensures
            r@ == self@.layers(tool_draws, has_crop, true),
            r@.contains(Layer::ActiveTool) <==> tool_draws,
            r@.contains(Layer::Crop) <==> has_crop,
            r@.contains(Layer::Selection) <==> self@.active_tool is Pointer,
    {
        assert(self.drawables.len() <= usize::MAX);
        proof {
            lemma_layers_of_a_frame(self@, tool_draws, has_crop, true);
        }
        self.layers(tool_draws, has_crop, true)
    }

    /// The region of the image that is exported, and the layers of the export.
    pub fn render_native_resolution(
        &self,
        tool_draws: bool,
        crop: Option<(Vec2D<S>, Vec2D<S>)>,
    ) -> (r: ((Vec2D<S>, Vec2D<S>), Vec<Layer>))
        ensures
            r.0 == self@.export_region(crop),
            r.1@ == self@.layers(tool_draws, false, false),
            r.1@.contains(Layer::ActiveTool) <==> tool_draws,
            !r.1@.contains(Layer::Crop),
            !r.1@.contains(Layer::Selection),
    {
        assert(self.drawables.len() <= usize::MAX);
        proof {
            lemma_layers_of_a_frame(self@, tool_draws, false, false);
        }
        (self.export_region(crop), self.layers(tool_draws, false, false))
    }

    fn export_region(&self, crop: Option<(Vec2D<S>, Vec2D<S>)>) -> (r: (Vec2D<S>, Vec2D<S>))
        ensures
            r == self@.export_region(crop),
    {
        if let Some((pos, size)) = crop {
            if !size.is_zero() {
                return (pos, size);
            }
        }
        (
            Vec2D::zero(),
            Vec2D::new(S::from_int(self.image_width as i64), S::from_int(self.image_height as i64)),
        )
    }

    /// The frame around the selected object and its handles, if there is one.
    pub fn render_object_selection(&self) -> (r: Option<
        (ObjectBounds<S>, Vec<(EditHandle, Vec2D<S>)>),
    >)
        ensures
            match r {
                Some((bounds, handles)) => self@.selection_frame() == Some((bounds, handles@)),
                None => self@.selection_frame() is None,
            },
    {
        let Some(index) = self.selection_focus.selected else {
            return None;
        };
        if index >= self.drawables.len() {
            return None;
        }
        let Some(bounds) = self.drawables[index].edit_bounds() else {
            return None;
        };
        let handles = self.drawables[index].edit_handles();
        assert(handles@ =~= handles_of(self.drawables@[index as int]));
        Some((bounds, handles))
    }

    /// Tells whether the image must be uploaded before it can be drawn.
    pub fn needs_background_upload(&self) -> (r: bool)
        ensures
            r == !self@.background_uploaded,
    {
        !self.background_uploaded
    }

    /// Notes that the image was uploaded.
    pub fn background_uploaded(&mut self)
        ensures
            final(self)@ == (AreaState { background_uploaded: true, ..old(self)@ }),
    {
        self.background_uploaded = true;
    }

    pub fn transparency_step(&self, onscreen: bool) -> (r: TransparencyStep)
        ensures
            r == self@.transparency_step(onscreen),
    {
        if !self.transparency_created {
            TransparencyStep::Create
        } else if onscreen {
            TransparencyStep::Reuse
        } else {
            TransparencyStep::Skip
        }
    }

    /// Notes that the pattern was made.
    pub fn transparency_created(&mut self)
        ensures
            final(self)@ == (AreaState { transparency_created: true, ..old(self)@ }),
    {
        self.transparency_created = true;
    }
}

} // verus!

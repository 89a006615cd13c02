//! Pixels of a finished rendering.
use vstd::arithmetic::div_mod::lemma_fundamental_div_mod_converse;
use vstd::prelude::*;

verus! {

#[derive(Debug, Clone, Copy, PartialEq, Eq, Structural)]
pub struct Rgba {
    pub r: u8,
    pub g: u8,
    pub b: u8,
    pub a: u8,
}

/// An image whose rows start `stride` pixels apart.
#[derive(Debug, Clone)]
pub struct RenderedImage {
    pub pixels: Vec<Rgba>,
    pub width: usize,
    pub height: usize,
    pub stride: usize,
}

/// An image as bytes, four to a pixel, whose rows start `rowstride` bytes apart.
#[derive(Debug, Clone)]
pub struct PixelBuffer {
    pub bytes: Vec<u8>,
    pub width: i32,
    pub height: i32,
    pub rowstride: i32,
}

impl RenderedImage {
    /// The rows are within the buffer, and the numbers are in the range of a
    /// pixel buffer. Rows without pixels cannot be told apart, so there is at most
    /// one of them.
    pub open spec fn wf(self) -> bool {
        &&& 0 < self.stride
        &&& self.width <= self.stride
        &&& self.width > 0 || self.height <= 1
        &&& self.width * 4 <= i32::MAX
        &&& self.height <= i32::MAX
        &&& self.height > 0 ==> (self.height - 1) * self.stride + self.width <= self.pixels@.len()
    }

    pub fn is_well_formed(&self) -> (r: bool)
        ensures
            r == self.wf(),
    {
        let max = i32::MAX as usize;
        let len: usize = self.pixels.len();
        if self.stride == 0 || self.width > self.stride || (self.width == 0 && self.height > 1)
            || self.width > max / 4 || self.height > max {
            return false;
        }
        if self.height == 0 {
            return true;
        }
        match (self.height - 1).checked_mul(self.stride) {
            Some(start) => match start.checked_add(self.width) {
                Some(end) => end <= len,
                None => false,
            },
            None => false,
        }
    }

    /// The pixels row by row, without what lies between the rows.
    pub open spec fn contents(self) -> Seq<Rgba> {
        contiguous(
            self.pixels@,
            self.width as int,
            self.height as int,
            self.stride as int,
        )
    }
}

pub open spec fn contiguous(pixels: Seq<Rgba>, width: int, height: int, stride: int) -> Seq<Rgba> {
    Seq::new((width * height) as nat, |i: int| pixels[(i / width) * stride + i % width])
}

/// The four bytes of each pixel, in the order red, green, blue, alpha.
pub open spec fn bytes_of(pixels: Seq<Rgba>) -> Seq<u8> {
    Seq::new(
        4 * pixels.len(),
        |i: int|
            if i % 4 == 0 {
                pixels[i / 4].r
            } else if i % 4 == 1 {
                pixels[i / 4].g
            } else if i % 4 == 2 {
                pixels[i / 4].b
            } else {
                pixels[i / 4].a
            },
    )
}

/// `Img::into_contiguous_buf` of the crate `imgref`, which `femtovg` exports: it
/// drops what lies between the rows, so that the pixel in column `x` of row `y`
/// is the one with number `x + y * width`, and cuts off what follows the last row.
#[verifier::external_body]
fn into_contiguous_buf(image: RenderedImage) -> (r: Vec<Rgba>)
    requires
        image.wf(),
    ensures
        r@ == image.contents(),
{
    let buf: Vec<femtovg::rgb::RGBA<u8>> = image.pixels.iter().map(
        |p| femtovg::rgb::RGBA::new(p.r, p.g, p.b, p.a),
    ).collect();
    let image = femtovg::imgref::Img::new_stride(buf, image.width, image.height, image.stride);
    let (buf, _, _) = image.into_contiguous_buf();
    buf.iter().map(|p| Rgba { r: p.r, g: p.g, b: p.b, a: p.a }).collect()
}

/// The bytes of the pixels.
pub fn component_bytes(pixels: &[Rgba]) -> (r: Vec<u8>)
    ensures
        r@ == bytes_of(pixels@),
{
    let mut bytes: Vec<u8> = Vec::new();
    let mut k: usize = 0;
    while k < pixels.len()
        invariant
            k <= pixels@.len(),
            bytes@ =~= bytes_of(pixels@.take(k as int)),
        decreases pixels@.len() - k,
    {
        let p = pixels[k];
        bytes.push(p.r);
        bytes.push(p.g);
        bytes.push(p.b);
        bytes.push(p.a);
        k = k + 1;
    }
    assert(pixels@.take(k as int) =~= pixels@);
    bytes
}

/// The rendering as a pixel buffer whose rows follow each other without gaps.
pub fn image_to_pixbuf(image: RenderedImage) -> (r: PixelBuffer)
    requires
        image.wf(),
    ensures
        r.bytes@ == bytes_of(image.contents()),
        r.width == image.width,
        r.height == image.height,
        r.rowstride == 4 * image.width,
{
    let width = image.width as i32;
    let height = image.height as i32;
    let pixels = into_contiguous_buf(image);
    PixelBuffer {
        bytes: component_bytes(pixels.as_slice()),
        width,
        height,
        rowstride: width * 4,
    }
}

/// The four bytes of the pixel in column `x` of row `y` stand in the buffer where
/// its row stride says.
pub proof fn lemma_pixel_in_buffer(image: RenderedImage, x: int, y: int)
    requires
        image.wf(),
        0 <= x < image.width,
        0 <= y < image.height,
    ensures
        ({
            let bytes = bytes_of(image.contents());
            let at = y * (4 * image.width) + 4 * x;
            let pixel = image.pixels@[y * image.stride + x];
            &&& 0 <= at < bytes.len() - 3
            &&& (bytes[at], bytes[at + 1], bytes[at + 2], bytes[at + 3]) == (
                pixel.r,
                pixel.g,
                pixel.b,
                pixel.a,
            )
        }),
{
    let (w, h) = (image.width as int, image.height as int);
    let i = y * w + x;
    lemma_fundamental_div_mod_converse(i, w, y, x);
    assert(0 <= i < w * h) by (nonlinear_arith)
        requires
            i == y * w + x,
            0 <= x < w,
            0 <= y <= h - 1,
    ;
    assert(y * (4 * w) + 4 * x == 4 * i) by (nonlinear_arith)
        requires
            i == y * w + x,
    ;
}

} // verus!

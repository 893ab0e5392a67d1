//! Images made from nothing: a canvas of one colour, and the escape-time
//! fractal on a gradient background.

use vstd::prelude::*;
use crate::pixel::{Color, Pixel};
use crate::raster::{grid_from, lemma_buffer_holds, pixel_of, push_pixel, Grid, Image, Layout};

verus! {

/// Width of the canvas, in pixels.
pub const CANVAS_WIDTH: u32 = 800;

/// Height of the canvas, in pixels.
pub const CANVAS_HEIGHT: u32 = 800;

/// Number of pixels of the canvas.
pub const CANVAS_PIXELS: usize = 640_000;

/// The largest escape count: the iteration stops there at the latest.
pub const MAX_ITERATIONS: u8 = 255;

/// The grid of the given shape in which every pixel is `p`.
pub open spec fn solid(width: nat, height: nat, p: Pixel) -> Grid {
    grid_from(width, height, |x: int, y: int| p)
}

/// The background intensity at a coordinate: three tenths of it, rounded
/// down, of which the low eight bits are kept.
pub open spec fn gradient_of(coord: int) -> u8 {
    ((3 * coord / 10) % 256) as u8
}

/// The fractal's pixel at `(x, y)` for a given escape count: red follows the
/// column, blue follows the row, green is the escape count.
pub open spec fn fractal_pixel_of(x: int, y: int, escape: u8) -> Pixel {
    Pixel { r: gradient_of(x), g: escape, b: gradient_of(y), a: 255u8 }
}

/// The fractal canvas for escape counts given row by row.
pub open spec fn fractal_grid(escapes: Seq<u8>) -> Grid {
    grid_from(
        CANVAS_WIDTH as nat,
        CANVAS_HEIGHT as nat,
        |x: int, y: int| fractal_pixel_of(x, y, escapes[y * CANVAS_WIDTH + x]),
    )
}

/// An image of the given shape in which every pixel is the opaque pixel of
/// one colour.  Its buffer must be one that a vector can hold.
pub fn filled(width: u32, height: u32, color: Color) -> (img: Image)
    requires
        4 * width * height <= isize::MAX,
    ensures
        img.wf(),
        img.spec_layout() == Layout::Rgb,
        img@ == solid(width as nat, height as nat, color.opaque()),
{
    assert(4 * width * height == 4 * (width * height)) by (nonlinear_arith);
    assert(0 <= width * height) by (nonlinear_arith);
    let p = color.to_pixel();
    let count: usize = (width as usize) * (height as usize);
    let mut data: Vec<u8> = Vec::new();
    let mut i: usize = 0;
    while i < count
        invariant
            4 * count <= usize::MAX,
            i <= count,
            data@.len() == 4 * i,
            forall|j: int| 0 <= j < i ==> #[trigger] pixel_of(data@, j) == p,
        decreases count - i,
    {
        push_pixel(&mut data, p);
        i += 1;
    }
    proof {
        lemma_buffer_holds(width as nat, height as nat, data@, |x: int, y: int| p);
    }
    Image::assemble(Layout::Rgb, width, height, data)
}

/// The canvas filled with one opaque colour.
pub fn generate(color: Color) -> (img: Image)
    ensures
        img.wf(),
        img.spec_layout() == Layout::Rgb,
        img@ == solid(CANVAS_WIDTH as nat, CANVAS_HEIGHT as nat, color.opaque()),
        img@.width == CANVAS_WIDTH,
        img@.height() == CANVAS_HEIGHT,
        forall|x: int, y: int| img@.contains(x, y) ==> #[trigger] img@.at(x, y) == color.opaque(),
{
    filled(CANVAS_WIDTH, CANVAS_HEIGHT, color)
}

/// The background intensity at a coordinate.
pub fn gradient(coord: u32) -> (v: u8)
    ensures
        v == gradient_of(coord as int),
{
    let tenths: u64 = 3 * (coord as u64) / 10;
    (tenths % 256) as u8
}

/// The fractal's pixel at `(x, y)` for a given escape count.
pub fn fractal_pixel(x: u32, y: u32, escape: u8) -> (p: Pixel)
    ensures
        p == fractal_pixel_of(x as int, y as int, escape),
{
    Pixel { r: gradient(x), g: escape, b: gradient(y), a: 255 }
}

/// The fractal canvas.  `escapes` gives the escape count of every pixel, row
/// by row from the top, each row from the left; there must be one count for
/// each pixel of the canvas, else nothing is drawn.
pub fn fractal(escapes: &Vec<u8>) -> (r: Option<Image>)
    ensures
        r.is_some() <==> escapes@.len() == CANVAS_WIDTH * CANVAS_HEIGHT,
        r.is_some() ==> {
            &&& r.unwrap().wf()
            &&& r.unwrap().spec_layout() == Layout::Rgb
            &&& r.unwrap()@ == fractal_grid(escapes@)
        },
{
    if escapes.len() != CANVAS_PIXELS {
        return None;
    }
    let ghost at = |x: int, y: int| fractal_pixel_of(x, y, escapes@[y * CANVAS_WIDTH + x]);
    let mut data: Vec<u8> = Vec::with_capacity(4 * CANVAS_PIXELS);
    let mut i: usize = 0;
    while i < CANVAS_PIXELS
        invariant
            escapes@.len() == CANVAS_PIXELS,
            i <= CANVAS_PIXELS,
            data@.len() == 4 * i,
            at == |x: int, y: int| fractal_pixel_of(x, y, escapes@[y * CANVAS_WIDTH + x]),
            forall|j: int| 0 <= j < i ==> #[trigger] pixel_of(data@, j) == at(j % 800, j / 800),
        decreases CANVAS_PIXELS - i,
    {
        let x: u32 = (i % 800) as u32;
        let y: u32 = (i / 800) as u32;
        push_pixel(&mut data, fractal_pixel(x, y, escapes[i]));
        i += 1;
    }
    proof {
        lemma_buffer_holds(CANVAS_WIDTH as nat, CANVAS_HEIGHT as nat, data@, at);
    }
    Some(Image::assemble(Layout::Rgb, CANVAS_WIDTH, CANVAS_HEIGHT, data))
}

} // verus!

//! Transformations of an image: invert, brighten, crop, rotate, grayscale.
//!
//! Each transformation is stated as a function on [`Grid`], and the
//! executable function returns exactly that grid.  The pixel work is done by
//! the `image` crate; what is taken on trust about it is said at each private
//! function that calls it.

use vstd::prelude::*;
use crate::pixel::Pixel;
use crate::raster::{
    grid_from,
    grid_of,
    lemma_buffer_holds,
    lemma_empty_grids,
    lemma_pixel_position,
    pixel_of,
    push_pixel,
    Grid,
    Image,
    Layout,
};

verus! {

/// A channel after `amount` is added to it: the sum, held to `0..=255`.
pub open spec fn brightened_channel(c: u8, amount: int) -> u8 {
    if c + amount < 0 {
        0u8
    } else if c + amount > 255 {
        255u8
    } else {
        (c + amount) as u8
    }
}

/// A pixel with each colour channel replaced by `255` minus the channel.
/// Alpha stays.
pub open spec fn inverted_pixel(p: Pixel) -> Pixel {
    Pixel { r: (255 - p.r) as u8, g: (255 - p.g) as u8, b: (255 - p.b) as u8, a: p.a }
}

/// A pixel with `amount` added to each colour channel, saturating at both
/// ends.  Alpha stays.
pub open spec fn brightened_pixel(p: Pixel, amount: int) -> Pixel {
    Pixel {
        r: brightened_channel(p.r, amount),
        g: brightened_channel(p.g, amount),
        b: brightened_channel(p.b, amount),
        a: p.a,
    }
}

/// The luminance of a colour, as `image::Pixel::to_luma` computes it for an
/// 8-bit pixel.
pub uninterp spec fn luma(r: u8, g: u8, b: u8) -> u8;

/// The opaque grey pixel for `p`.  Where the layout already holds a grey
/// level, that level stays; otherwise the level is the luminance of `p`.
pub open spec fn gray_pixel(layout: Layout, p: Pixel) -> Pixel {
    if layout.gray() {
        Pixel::gray_of(p.r)
    } else {
        Pixel::gray_of(luma(p.r, p.g, p.b))
    }
}

/// The grid of the same shape in which each pixel is `f` of the pixel at the
/// same position of `g`.
pub open spec fn map_pixels(g: Grid, f: spec_fn(Pixel) -> Pixel) -> Grid {
    Grid {
        width: g.width,
        rows: Seq::new(g.height(), |y: int| Seq::new(g.width, |x: int| f(g.rows[y][x]))),
    }
}

/// Every colour channel inverted.
pub open spec fn inverted(g: Grid) -> Grid {
    map_pixels(g, |p: Pixel| inverted_pixel(p))
}

/// Every colour channel brightened by `amount`.
pub open spec fn brightened(g: Grid, amount: int) -> Grid {
    map_pixels(g, |p: Pixel| brightened_pixel(p, amount))
}

/// Every pixel of an image of the given layout replaced by its opaque grey.
pub open spec fn grayed(g: Grid, layout: Layout) -> Grid {
    map_pixels(g, |p: Pixel| gray_pixel(layout, p))
}

/// The `width` by `height` window of `g` whose top left corner is `(x, y)`.
pub open spec fn cropped(g: Grid, x: int, y: int, width: nat, height: nat) -> Grid {
    Grid {
        width,
        rows: Seq::new(height, |j: int| Seq::new(width, |i: int| g.rows[y + j][x + i])),
    }
}

/// `g` turned a quarter clockwise: the left column becomes the top row.
pub open spec fn rotated90(g: Grid) -> Grid {
    Grid {
        width: g.height(),
        rows: Seq::new(
            g.width,
            |y: int| Seq::new(g.height(), |x: int| g.rows[g.height() - 1 - x][y]),
        ),
    }
}

/// `g` turned upside down: a half turn.
pub open spec fn rotated180(g: Grid) -> Grid {
    Grid {
        width: g.width,
        rows: Seq::new(
            g.height(),
            |y: int| Seq::new(g.width, |x: int| g.rows[g.height() - 1 - y][g.width - 1 - x]),
        ),
    }
}

/// `g` turned three quarters clockwise: the top row becomes the left column.
pub open spec fn rotated270(g: Grid) -> Grid {
    Grid {
        width: g.height(),
        rows: Seq::new(
            g.width,
            |y: int| Seq::new(g.height(), |x: int| g.rows[x][g.width - 1 - y]),
        ),
    }
}

/// `g` turned clockwise by `amount` degrees, for a quarter, half or three
/// quarter turn; for any other amount, `g` itself.
pub open spec fn rotated(g: Grid, amount: int) -> Grid {
    if amount == 90 {
        rotated90(g)
    } else if amount == 180 {
        rotated180(g)
    } else if amount == 270 {
        rotated270(g)
    } else {
        g
    }
}

/// Why a crop was refused.
#[derive(Clone, Copy, Debug, PartialEq, Eq, Structural)]
pub enum CropError {
    /// The window ends to the right of the image.
    BeyondWidth,
    /// The window ends below the image, and not to the right of it.
    BeyondHeight,
}

/// Calls `image::imageops::invert` on an RGBA buffer.  Trusted: the buffer
/// keeps its shape, each colour sample `v` becomes `255 - v`, and alpha
/// samples stay.  The crate multiplies 4, the width and the height in
/// `usize`, step by step, and panics where a step overflows.  So the buffer
/// must not be empty: then four times either side is at most its length.
#[verifier::external_body]
fn invert_samples(width: u32, height: u32, samples: Vec<u8>) -> (out: Vec<u8>)
    requires
        samples@.len() == 4 * width * height,
        samples@.len() > 0,
    ensures
        out@.len() == samples@.len(),
        grid_of(width as nat, height as nat, out@) == inverted(
            grid_of(width as nat, height as nat, samples@),
        ),
{
    let mut buf = image::RgbaImage::from_raw(width, height, samples).unwrap();
    image::imageops::invert(&mut buf);
    buf.into_raw()
}

/// Calls `image::imageops::brighten` on an RGBA buffer.  Trusted: the buffer
/// keeps its shape, each colour sample `v` becomes `v + amount` held to
/// `0..=255`, and alpha samples stay.  The crate adds in `i32`, so `amount`
/// must leave room for a sample.  The buffer must not be empty, as for
/// `invert_samples`.
#[verifier::external_body]
fn brighten_samples(width: u32, height: u32, samples: Vec<u8>, amount: i32) -> (out: Vec<u8>)
    requires
        samples@.len() == 4 * width * height,
        samples@.len() > 0,
        amount <= i32::MAX - 255,
    ensures
        out@.len() == samples@.len(),
        grid_of(width as nat, height as nat, out@) == brightened(
            grid_of(width as nat, height as nat, samples@),
            amount as int,
        ),
{
    let buf = image::RgbaImage::from_raw(width, height, samples).unwrap();
    image::imageops::brighten(&buf, amount).into_raw()
}

/// Calls `image::imageops::crop` and `SubImage::to_image` on an RGBA buffer.
/// Trusted: for a window that lies inside the image, the result holds the
/// `w` by `h` pixels of that window, in place.  The buffer must not be
/// empty, as for `invert_samples`.
#[verifier::external_body]
fn crop_samples(width: u32, height: u32, samples: Vec<u8>, x: u32, y: u32, w: u32, h: u32) -> (out:
    Vec<u8>)
    requires
        samples@.len() == 4 * width * height,
        samples@.len() > 0,
        x + w <= width,
        y + h <= height,
    ensures
        out@.len() == 4 * w * h,
        grid_of(w as nat, h as nat, out@) == cropped(
            grid_of(width as nat, height as nat, samples@),
            x as int,
            y as int,
            w as nat,
            h as nat,
        ),
{
    let mut buf = image::RgbaImage::from_raw(width, height, samples).unwrap();
    image::imageops::crop(&mut buf, x, y, w, h).to_image().into_raw()
}

/// Calls `image::imageops::rotate90` on an RGBA buffer.  Trusted: the result
/// is `height` wide and `width` high, and the pixel at `(x, y)` of the source
/// stands at `(height - 1 - y, x)` of the result.  The buffer must not be
/// empty, as for `invert_samples`.
#[verifier::external_body]
fn rotate90_samples(width: u32, height: u32, samples: Vec<u8>) -> (out: Vec<u8>)
    requires
        samples@.len() == 4 * width * height,
        samples@.len() > 0,
    ensures
        out@.len() == samples@.len(),
        grid_of(height as nat, width as nat, out@) == rotated90(
            grid_of(width as nat, height as nat, samples@),
        ),
{
    let buf = image::RgbaImage::from_raw(width, height, samples).unwrap();
    image::imageops::rotate90(&buf).into_raw()
}

/// Calls `image::imageops::rotate180` on an RGBA buffer.  Trusted: the result
/// has the shape of the source, and the pixel at `(x, y)` of the source
/// stands at `(width - 1 - x, height - 1 - y)` of the result.  The buffer
/// must not be empty, as for `invert_samples`.
#[verifier::external_body]
fn rotate180_samples(width: u32, height: u32, samples: Vec<u8>) -> (out: Vec<u8>)
    requires
        samples@.len() == 4 * width * height,
        samples@.len() > 0,
    ensures
        out@.len() == samples@.len(),
        grid_of(width as nat, height as nat, out@) == rotated180(
            grid_of(width as nat, height as nat, samples@),
        ),
{
    let buf = image::RgbaImage::from_raw(width, height, samples).unwrap();
    image::imageops::rotate180(&buf).into_raw()
}

/// Calls `image::imageops::rotate270` on an RGBA buffer.  Trusted: the result
/// is `height` wide and `width` high, and the pixel at `(x, y)` of the source
/// stands at `(y, width - 1 - x)` of the result.  The buffer must not be
/// empty, as for `invert_samples`.
#[verifier::external_body]
fn rotate270_samples(width: u32, height: u32, samples: Vec<u8>) -> (out: Vec<u8>)
    requires
        samples@.len() == 4 * width * height,
        samples@.len() > 0,
    ensures
        out@.len() == samples@.len(),
        grid_of(height as nat, width as nat, out@) == rotated270(
            grid_of(width as nat, height as nat, samples@),
        ),
{
    let buf = image::RgbaImage::from_raw(width, height, samples).unwrap();
    image::imageops::rotate270(&buf).into_raw()
}

/// Calls `image::Pixel::to_luma` on one RGB pixel.  Trusted: the result is a
/// function of the three colour samples alone.  The crate computes it in
/// floating point, so it is named here and not stated.
#[verifier::external_body]
fn luma_of(r: u8, g: u8, b: u8) -> (l: u8)
    ensures
        l == luma(r, g, b),
{
    image::Pixel::to_luma(&image::Rgb([r, g, b])).data[0]
}

/// Inverts every colour channel of every pixel: `v` becomes `255 - v`.
pub fn invert(img: Image) -> (out: Image)
    requires
        img.wf(),
    ensures
        out.wf(),
        out.spec_layout() == img.spec_layout(),
        out@ == inverted(img@),
{
    proof {
        img.lemma_view();
        lemma_mapped_conforms(
            img@,
            |p: Pixel| inverted_pixel(p),
            img.spec_layout(),
            img.spec_layout(),
        );
    }
    if img.as_raw().len() == 0 {
        proof {
            lemma_no_pixels(img@);
            lemma_empty_grids(inverted(img@), img@);
        }
        return img;
    }
    let layout = img.layout();
    let width = img.width();
    let height = img.height();
    let data = invert_samples(width, height, img.into_raw());
    Image::assemble(layout, width, height, data)
}

/// Adds `amount` to every colour channel of every pixel.  A sum below 0
/// becomes 0 and a sum above 255 becomes 255.
pub fn brighten(img: Image, amount: i32) -> (out: Image)
    requires
        img.wf(),
    ensures
        out.wf(),
        out.spec_layout() == img.spec_layout(),
        out@ == brightened(img@, amount as int),
{
    proof {
        img.lemma_view();
        lemma_mapped_conforms(
            img@,
            |p: Pixel| brightened_pixel(p, amount as int),
            img.spec_layout(),
            img.spec_layout(),
        );
    }
    if img.as_raw().len() == 0 {
        proof {
            lemma_no_pixels(img@);
            lemma_empty_grids(brightened(img@, amount as int), img@);
        }
        return img;
    }
    let layout = img.layout();
    let width = img.width();
    let height = img.height();
    let near: i32 = if amount > 255 {
        255
    } else {
        amount
    };
    proof {
        lemma_brightened_beyond(img@, amount as int);
    }
    let data = brighten_samples(width, height, img.into_raw(), near);
    Image::assemble(layout, width, height, data)
}

/// Cuts the `width` by `height` window with top left corner `(x, y)` out of
/// the image.  A window that does not lie inside the image is refused.
pub fn crop(img: Image, x: u32, y: u32, width: u32, height: u32) -> (r: Result<Image, CropError>)
    requires
        img.wf(),
    ensures
        match r {
            Ok(out) => {
                &&& x + width <= img@.width
                &&& y + height <= img@.height()
                &&& out.wf()
                &&& out.spec_layout() == img.spec_layout()
                &&& out@.width == width
                &&& out@.height() == height
                &&& out@ == cropped(img@, x as int, y as int, width as nat, height as nat)
            },
            Err(e) => {
                if x + width > img@.width {
                    e == CropError::BeyondWidth
                } else {
                    y + height > img@.height() && e == CropError::BeyondHeight
                }
            },
        },
{
    proof {
        img.lemma_view();
    }
    let layout = img.layout();
    let image_width = img.width();
    let image_height = img.height();
    if x as u64 + width as u64 > image_width as u64 {
        return Err(CropError::BeyondWidth);
    }
    if y as u64 + height as u64 > image_height as u64 {
        return Err(CropError::BeyondHeight);
    }
    let ghost window = cropped(img@, x as int, y as int, width as nat, height as nat);
    assert(window.conforms(layout));
    if img.as_raw().len() == 0 {
        let data = img.into_raw();
        proof {
            lemma_no_pixels(img@);
            assert(width * height == 0) by (nonlinear_arith)
                requires
                    0 <= width <= image_width,
                    0 <= height <= image_height,
                    image_width == 0 || image_height == 0,
            ;
            assert(4 * width * height == 4 * (width * height)) by (nonlinear_arith);
            lemma_empty_grids(grid_of(width as nat, height as nat, data@), window);
        }
        return Ok(Image::assemble(layout, width, height, data));
    }
    let data = crop_samples(image_width, image_height, img.into_raw(), x, y, width, height);
    Ok(Image::assemble(layout, width, height, data))
}

/// Turns the image clockwise by `amount` degrees, where `amount` is 90, 180
/// or 270.  Any other amount leaves the image as it is.
pub fn rotate(img: Image, amount: u32) -> (out: Image)
    requires
        img.wf(),
    ensures
        out.wf(),
        out.spec_layout() == img.spec_layout(),
        out@ == rotated(img@, amount as int),
{
    proof {
        img.lemma_view();
    }
    if amount != 90 && amount != 180 && amount != 270 {
        return img;
    }
    let layout = img.layout();
    let width = img.width();
    let height = img.height();
    let ghost turned = rotated(img@, amount as int);
    assert(turned.conforms(layout));
    assert(4 * height * width == 4 * width * height) by (nonlinear_arith);
    if img.as_raw().len() == 0 {
        let data = img.into_raw();
        proof {
            lemma_no_pixels(img@);
            if amount == 180 {
                lemma_empty_grids(grid_of(width as nat, height as nat, data@), turned);
            } else {
                assert(height * width == 0) by (nonlinear_arith)
                    requires
                        width == 0 || height == 0,
                ;
                lemma_empty_grids(grid_of(height as nat, width as nat, data@), turned);
            }
        }
        if amount == 180 {
            return Image::assemble(layout, width, height, data);
        }
        return Image::assemble(layout, height, width, data);
    }
    if amount == 90 {
        let data = rotate90_samples(width, height, img.into_raw());
        Image::assemble(layout, height, width, data)
    } else if amount == 180 {
        let data = rotate180_samples(width, height, img.into_raw());
        Image::assemble(layout, width, height, data)
    } else {
        let data = rotate270_samples(width, height, img.into_raw());
        Image::assemble(layout, height, width, data)
    }
}

/// Replaces every pixel by an opaque grey pixel.  An image that holds grey
/// levels keeps them; in any other, the level of a pixel is its luminance.
/// The result holds grey levels alone.
pub fn grayscale(img: Image) -> (out: Image)
    requires
        img.wf(),
    ensures
        out.wf(),
        out.spec_layout() == Layout::Gray,
        out@ == grayed(img@, img.spec_layout()),
{
    proof {
        img.lemma_view();
    }
    let layout = img.layout();
    let keep = layout.is_gray();
    let width = img.width();
    let height = img.height();
    let data = img.into_raw();
    assert(4 * width * height == 4 * (width * height)) by (nonlinear_arith);
    let count: usize = data.len() / 4;
    let mut out: Vec<u8> = Vec::with_capacity(data.len());
    let mut i: usize = 0;
    while i < count
        invariant
            data@.len() == 4 * count,
            4 * count <= usize::MAX,
            keep == layout.gray(),
            i <= count,
            out@.len() == 4 * i,
            forall|j: int|
                0 <= j < i ==> #[trigger] pixel_of(out@, j) == gray_pixel(layout, pixel_of(data@, j)),
        decreases count - i,
    {
        let level = if keep {
            data[4 * i]
        } else {
            luma_of(data[4 * i], data[4 * i + 1], data[4 * i + 2])
        };
        push_pixel(&mut out, Pixel::gray(level));
        i += 1;
    }
    proof {
        let f = |p: Pixel| gray_pixel(layout, p);
        lemma_map_samples(width as nat, height as nat, data@, out@, f);
        lemma_mapped_conforms(grid_of(width as nat, height as nat, data@), f, layout, Layout::Gray);
    }
    Image::assemble(Layout::Gray, width, height, out)
}

/// A buffer whose pixels are `f` of the pixels of another, one by one, holds
/// the grid with `f` mapped over it.
pub proof fn lemma_map_samples(
    width: nat,
    height: nat,
    src: Seq<u8>,
    dst: Seq<u8>,
    f: spec_fn(Pixel) -> Pixel,
)
    requires
        forall|j: int| 0 <= j < width * height ==> #[trigger] pixel_of(dst, j) == f(pixel_of(src, j)),
    ensures
        grid_of(width, height, dst) == map_pixels(grid_of(width, height, src), f),
{
    let at = |x: int, y: int| f(pixel_of(src, y * width + x));
    assert forall|j: int| 0 <= j < width * height implies #[trigger] pixel_of(dst, j) == at(
        j % (width as int),
        j / (width as int),
    ) by {
        lemma_pixel_position(width as int, height as int, j);
    }
    lemma_buffer_holds(width, height, dst, at);
    let a = grid_from(width, height, at);
    let b = map_pixels(grid_of(width, height, src), f);
    assert forall|y: int| 0 <= y < height implies a.rows[y] =~= b.rows[y] by {}
    assert(a.rows =~= b.rows);
}

/// Where `f` takes every pixel that one layout admits to a pixel that
/// another admits, it takes a grid of the one to a grid of the other.
pub proof fn lemma_mapped_conforms(g: Grid, f: spec_fn(Pixel) -> Pixel, from: Layout, to: Layout)
    requires
        g.wf(),
        g.conforms(from),
        forall|p: Pixel| from.admits(p) ==> to.admits(#[trigger] f(p)),
    ensures
        map_pixels(g, f).conforms(to),
{
    let m = map_pixels(g, f);
    assert forall|x: int, y: int| 0 <= y < m.rows.len() && 0 <= x < m.width implies to.admits(
        #[trigger] m.rows[y][x],
    ) by {
        assert(from.admits(g.rows[y][x]));
        assert(m.rows[y][x] == f(g.rows[y][x]));
    }
}

/// A grid without pixels has no columns or no rows.
proof fn lemma_no_pixels(g: Grid)
    requires
        4 * g.width * g.height() == 0,
    ensures
        g.width * g.height() == 0,
        g.width == 0 || g.height() == 0,
{
    assert(g.width * g.height() == 0 && (g.width == 0 || g.height() == 0)) by (nonlinear_arith)
        requires
            4 * g.width * g.height() == 0,
    ;
}

/// Beyond 255 a larger amount brightens no further.
proof fn lemma_brightened_beyond(g: Grid, amount: int)
    ensures
        amount > 255 ==> brightened(g, amount) == brightened(g, 255),
{
    if amount > 255 {
        let far = brightened(g, amount);
        let near = brightened(g, 255);
        assert forall|y: int| 0 <= y < g.height() implies far.rows[y] =~= near.rows[y] by {
            assert forall|x: int| 0 <= x < g.width implies far.rows[y][x] == near.rows[y][x] by {
                let p = g.rows[y][x];
                assert(brightened_pixel(p, amount) == brightened_pixel(p, 255));
            }
        }
        assert(far.rows =~= near.rows);
    }
}

} // verus!

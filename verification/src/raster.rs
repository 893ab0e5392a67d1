//! The image type and its mathematical model.

use vstd::prelude::*;
use vstd::arithmetic::div_mod::lemma_fundamental_div_mod;
use crate::pixel::Pixel;

verus! {

/// Which channels of its pixels an image uses.  An image is always held as
/// red, green, blue and alpha; its layout says which of them carry
/// information, and so how it is written out.
#[derive(Clone, Copy, Debug, PartialEq, Eq, Structural)]
pub enum Layout {
    /// One grey level: the colour channels are equal and alpha is full.
    Gray,
    /// A grey level and alpha: the colour channels are equal.
    GrayAlpha,
    /// Three colour channels: alpha is full.
    Rgb,
    /// Three colour channels and alpha.
    Rgba,
}

impl Layout {
    /// The layout holds a grey level in place of three colours.
    pub open spec fn gray(self) -> bool {
        self == Layout::Gray || self == Layout::GrayAlpha
    }

    /// `p` is a pixel that an image of this layout may hold.
    pub open spec fn admits(self, p: Pixel) -> bool {
        match self {
            Layout::Gray => p.r == p.g && p.g == p.b && p.a == 255,
            Layout::GrayAlpha => p.r == p.g && p.g == p.b,
            Layout::Rgb => p.a == 255,
            Layout::Rgba => true,
        }
    }

    /// Whether the layout holds a grey level in place of three colours.
    pub fn is_gray(&self) -> (r: bool)
        ensures
            r == self.gray(),
    {
        match self {
            Layout::Gray => true,
            Layout::GrayAlpha => true,
            _ => false,
        }
    }

    /// Whether `p` is a pixel that an image of this layout may hold.
    pub fn allows(&self, p: Pixel) -> (r: bool)
        ensures
            r == self.admits(p),
    {
        match self {
            Layout::Gray => p.r == p.g && p.g == p.b && p.a == 255,
            Layout::GrayAlpha => p.r == p.g && p.g == p.b,
            Layout::Rgb => p.a == 255,
            Layout::Rgba => true,
        }
    }
}

/// The mathematical model of an image: `rows[y][x]` is the pixel in column
/// `x` of row `y`, counted from the top left corner.
pub struct Grid {
    pub width: nat,
    pub rows: Seq<Seq<Pixel>>,
}

impl Grid {
    /// Number of rows.
    pub open spec fn height(self) -> nat {
        self.rows.len()
    }

    /// Every row is `width` pixels long.
    pub open spec fn wf(self) -> bool {
        forall|y: int| 0 <= y < self.rows.len() ==> (#[trigger] self.rows[y]).len() == self.width
    }

    /// `(x, y)` is a position inside the grid.
    pub open spec fn contains(self, x: int, y: int) -> bool {
        0 <= x < self.width && 0 <= y < self.height()
    }

    /// The pixel in column `x` of row `y`.
    pub open spec fn at(self, x: int, y: int) -> Pixel {
        self.rows[y][x]
    }

    /// Every pixel is one that `layout` admits.
    pub open spec fn conforms(self, layout: Layout) -> bool {
        forall|x: int, y: int|
            0 <= y < self.rows.len() && 0 <= x < self.width ==> layout.admits(
                #[trigger] self.rows[y][x],
            )
    }
}

/// The grid of the given shape whose pixel at `(x, y)` is `f(x, y)`.
pub open spec fn grid_from(width: nat, height: nat, f: spec_fn(int, int) -> Pixel) -> Grid {
    Grid { width, rows: Seq::new(height, |y: int| Seq::new(width, |x: int| f(x, y))) }
}

/// The pixel whose four samples start at index `4 * i` of a raw buffer.
pub open spec fn pixel_of(samples: Seq<u8>, i: int) -> Pixel {
    Pixel { r: samples[4 * i], g: samples[4 * i + 1], b: samples[4 * i + 2], a: samples[4 * i + 3] }
}

/// The grid that a raw buffer holds: pixels row by row from the top, each row
/// from the left, each pixel as its samples R, G, B, A.
pub open spec fn grid_of(width: nat, height: nat, samples: Seq<u8>) -> Grid {
    grid_from(width, height, |x: int, y: int| pixel_of(samples, y * width + x))
}

/// Positions inside a `width` by `height` grid number its pixels below
/// `width * height`.
pub proof fn lemma_position_in_range(width: int, height: int, x: int, y: int)
    requires
        0 <= x < width,
        0 <= y < height,
    ensures
        0 <= y * width + x < width * height,
        y * width + width <= width * height,
{
    assert(y * width >= 0) by (nonlinear_arith)
        requires
            y >= 0,
            width > 0,
    ;
    assert((y + 1) * width <= height * width) by (nonlinear_arith)
        requires
            y + 1 <= height,
            width > 0,
    ;
    assert((y + 1) * width == y * width + width) by (nonlinear_arith);
    assert(height * width == width * height) by (nonlinear_arith);
}

/// The pixel numbered `j` stands in column `j % width` of row `j / width`.
pub proof fn lemma_pixel_position(width: int, height: int, j: int)
    requires
        0 <= width,
        0 <= j < width * height,
    ensures
        0 <= j % width < width,
        0 <= j / width < height,
        (j / width) * width + j % width == j,
{
    assert(width > 0) by (nonlinear_arith)
        requires
            0 <= j < width * height,
            0 <= width,
    ;
    let x = j % width;
    let y = j / width;
    lemma_fundamental_div_mod(j, width);
    assert(width * y == y * width) by (nonlinear_arith);
    assert(0 <= y < height) by (nonlinear_arith)
        requires
            0 <= j < width * height,
            j == y * width + x,
            0 <= x < width,
    ;
}

/// A buffer whose pixel numbered `j` is `f(j % width, j / width)`, for every
/// `j`, holds the grid of `f`.
pub proof fn lemma_buffer_holds(
    width: nat,
    height: nat,
    samples: Seq<u8>,
    f: spec_fn(int, int) -> Pixel,
)
    requires
        forall|j: int|
            0 <= j < width * height ==> #[trigger] pixel_of(samples, j) == f(
                j % (width as int),
                j / (width as int),
            ),
    ensures
        grid_of(width, height, samples) == grid_from(width, height, f),
{
    let a = grid_of(width, height, samples);
    let b = grid_from(width, height, f);
    assert forall|y: int| 0 <= y < height implies a.rows[y] =~= b.rows[y] by {
        assert forall|x: int| 0 <= x < width implies a.rows[y][x] == b.rows[y][x] by {
            let j = y * width + x;
            lemma_position_in_range(width as int, height as int, x, y);
            lemma_pixel_position(width as int, height as int, j);
            assert(j / (width as int) == y && j % (width as int) == x) by (nonlinear_arith)
                requires
                    (j / (width as int)) * width + j % (width as int) == y * width + x,
                    0 <= j % (width as int) < width,
                    0 <= x < width,
            ;
            assert(a.rows[y][x] == pixel_of(samples, j));
        }
    }
    assert(a.rows =~= b.rows);
}

/// Grids of one shape that has no pixels are equal.
pub proof fn lemma_empty_grids(a: Grid, b: Grid)
    requires
        a.wf(),
        b.wf(),
        a.width == b.width,
        a.height() == b.height(),
        a.width * a.height() == 0,
    ensures
        a == b,
{
    assert(a.width == 0 || a.height() == 0) by (nonlinear_arith)
        requires
            a.width * a.height() == 0,
    ;
    assert forall|y: int| 0 <= y < a.height() implies a.rows[y] =~= b.rows[y] by {}
    assert(a.rows =~= b.rows);
}

/// Appends the four samples of one pixel to a buffer.
pub(crate) fn push_pixel(data: &mut Vec<u8>, p: Pixel)
    requires
        old(data)@.len() % 4 == 0,
    ensures
        final(data)@.len() == old(data)@.len() + 4,
        pixel_of(final(data)@, old(data)@.len() as int / 4) == p,
        forall|j: int|
            0 <= j < old(data)@.len() / 4 ==> #[trigger] pixel_of(final(data)@, j) == pixel_of(
                old(data)@,
                j,
            ),
{
    data.push(p.r);
    data.push(p.g);
    data.push(p.b);
    data.push(p.a);
}

/// An image: `width` by `height` pixels of four 8-bit channels each, with
/// the layout that all its pixels keep.
#[derive(Clone, Debug, PartialEq, Eq)]
pub struct Image {
    layout: Layout,
    width: u32,
    height: u32,
    data: Vec<u8>,
}

impl View for Image {
    type V = Grid;

    closed spec fn view(&self) -> Grid {
        grid_of(self.width as nat, self.height as nat, self.data@)
    }
}

impl Image {
    /// The raw buffer of the image.
    pub closed spec fn samples(&self) -> Seq<u8> {
        self.data@
    }

    /// The layout of the image.
    pub closed spec fn spec_layout(&self) -> Layout {
        self.layout
    }

    /// The buffer holds exactly the samples of `width * height` pixels, and
    /// the layout admits each of them.
    pub closed spec fn wf(&self) -> bool {
        &&& self.data@.len() == 4 * (self.width as nat) * (self.height as nat)
        &&& self@.conforms(self.layout)
    }

    /// A well-formed image is the grid of its raw buffer, and conforms to
    /// its layout.
    pub proof fn lemma_view(&self)
        ensures
            self@ == grid_of(self@.width, self@.height(), self.samples()),
            self@.width <= u32::MAX,
            self@.height() <= u32::MAX,
            self@.wf(),
            self.wf() ==> self.samples().len() == 4 * self@.width * self@.height(),
            self.wf() ==> self@.conforms(self.spec_layout()),
    {
    }

    /// Builds an image of four channels from a raw buffer, which must hold
    /// exactly `4 * width * height` samples.
    pub fn from_raw(width: u32, height: u32, data: Vec<u8>) -> (r: Option<Image>)
        ensures
            r.is_some() <==> data@.len() == 4 * width * height,
            r.is_some() ==> {
                &&& r.unwrap().wf()
                &&& r.unwrap()@ == grid_of(width as nat, height as nat, data@)
                &&& r.unwrap().samples() == data@
                &&& r.unwrap().spec_layout() == Layout::Rgba
            },
    {
        assert(0 <= width * height <= 0xffff_ffff * 0xffff_ffff) by (nonlinear_arith)
            requires
                0 <= width <= 0xffff_ffff,
                0 <= height <= 0xffff_ffff,
        ;
        let pixels: u64 = (width as u64) * (height as u64);
        let len: u64 = data.len() as u64;
        assert(4 * width * height == 4 * (width * height)) by (nonlinear_arith);
        assert(4 * (width as nat) * (height as nat) == 4 * (width * height)) by (nonlinear_arith);
        if len % 4 == 0 && len / 4 == pixels {
            Some(Image { layout: Layout::Rgba, width, height, data })
        } else {
            None
        }
    }

    /// Builds an image from a raw buffer of the right length whose pixels
    /// the layout admits.
    pub(crate) fn assemble(layout: Layout, width: u32, height: u32, data: Vec<u8>) -> (img: Image)
        requires
            data@.len() == 4 * width * height,
            grid_of(width as nat, height as nat, data@).conforms(layout),
        ensures
            img.wf(),
            img@ == grid_of(width as nat, height as nat, data@),
            img.samples() == data@,
            img.spec_layout() == layout,
    {
        assert(4 * (width as nat) * (height as nat) == 4 * width * height) by (nonlinear_arith);
        Image { layout, width, height, data }
    }

    /// The same pixels under another layout, if that layout admits them all.
    pub fn with_layout(self, layout: Layout) -> (r: Option<Image>)
        requires
            self.wf(),
        ensures
            r.is_some() <==> self@.conforms(layout),
            r.is_some() ==> {
                &&& r.unwrap().wf()
                &&& r.unwrap()@ == self@
                &&& r.unwrap().samples() == self.samples()
                &&& r.unwrap().spec_layout() == layout
            },
    {
        let ghost w = self.width as int;
        let ghost h = self.height as int;
        assert(4 * (self.width as nat) * (self.height as nat) == 4 * (w * h)) by (nonlinear_arith)
            requires
                w == self.width,
                h == self.height,
        ;
        let count: usize = self.data.len() / 4;
        let mut i: usize = 0;
        while i < count
            invariant
                self.data@.len() == 4 * count,
                4 * count <= usize::MAX,
                count == w * h,
                w == self.width,
                h == self.height,
                i <= count,
                forall|j: int| 0 <= j < i ==> layout.admits(#[trigger] pixel_of(self.data@, j)),
            decreases count - i,
        {
            let p = Pixel {
                r: self.data[4 * i],
                g: self.data[4 * i + 1],
                b: self.data[4 * i + 2],
                a: self.data[4 * i + 3],
            };
            if !layout.allows(p) {
                proof {
                    lemma_pixel_position(w, h, i as int);
                    let x = (i as int) % w;
                    let y = (i as int) / w;
                    assert(self@.rows[y][x] == pixel_of(self.data@, y * w + x));
                }
                return None;
            }
            i += 1;
        }
        proof {
            assert forall|x: int, y: int| 0 <= y < h && 0 <= x < w implies layout.admits(
                #[trigger] self@.rows[y][x],
            ) by {
                lemma_position_in_range(w, h, x, y);
                assert(self@.rows[y][x] == pixel_of(self.data@, y * w + x));
            }
        }
        Some(Image { layout, width: self.width, height: self.height, data: self.data })
    }

    /// The layout of the image.
    pub fn layout(&self) -> (l: Layout)
        ensures
            l == self.spec_layout(),
    {
        self.layout
    }

    /// Number of columns.
    pub fn width(&self) -> (w: u32)
        ensures
            w == self@.width,
    {
        self.width
    }

    /// Number of rows.
    pub fn height(&self) -> (h: u32)
        ensures
            h == self@.height(),
    {
        self.height
    }

    /// The raw buffer: pixels row by row, four samples each.
    pub fn as_raw(&self) -> (data: &Vec<u8>)
        ensures
            data@ == self.samples(),
    {
        &self.data
    }

    /// Gives up the image for its raw buffer.
    pub fn into_raw(self) -> (data: Vec<u8>)
        ensures
            data@ == self.samples(),
    {
        self.data
    }

    /// The pixel in column `x` of row `y`.
    pub fn get_pixel(&self, x: u32, y: u32) -> (p: Pixel)
        requires
            self.wf(),
            self@.contains(x as int, y as int),
        ensures
            p == self@.at(x as int, y as int),
    {
        let len: usize = self.data.len();
        proof {
            let w = self.width as int;
            let h = self.height as int;
            assert(self@.height() == h);
            assert(len == 4 * (self.width as nat) * (self.height as nat));
            lemma_position_in_range(w, h, x as int, y as int);
            assert(4 * (self.width as nat) * (self.height as nat) == 4 * (w * h)) by (nonlinear_arith)
                requires
                    w == self.width,
                    h == self.height,
            ;
            assert(0 <= y * w) by (nonlinear_arith)
                requires
                    0 <= y,
                    0 <= w,
            ;
        }
        let i: usize = (y as usize) * (self.width as usize) + (x as usize);
        Pixel {
            r: self.data[4 * i],
            g: self.data[4 * i + 1],
            b: self.data[4 * i + 2],
            a: self.data[4 * i + 3],
        }
    }
}

} // verus!

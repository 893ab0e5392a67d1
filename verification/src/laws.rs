//! Laws that relate the operations of the library to each other.

use vstd::prelude::*;
use crate::canvas::fractal_grid;
use crate::raster::{lemma_pixel_position, pixel_of, Grid, Image};
use crate::transform::{
    brightened,
    brightened_pixel,
    inverted,
    inverted_pixel,
    rotated,
    rotated180,
    rotated270,
    rotated90,
};

verus! {

/// Inverting twice gives the image back.
pub proof fn lemma_invert_involution(g: Grid)
    requires
        g.wf(),
    ensures
        inverted(inverted(g)) == g,
{
    let twice = inverted(inverted(g));
    assert forall|y: int| 0 <= y < g.height() implies twice.rows[y] =~= g.rows[y] by {
        assert forall|x: int| 0 <= x < g.width implies twice.rows[y][x] == g.rows[y][x] by {
            let p = g.rows[y][x];
            assert(inverted(g).rows[y][x] == inverted_pixel(p));
            assert(inverted_pixel(inverted_pixel(p)) == p);
        }
    }
    assert(twice.rows =~= g.rows);
}

/// Brightening by nothing gives the image back.
pub proof fn lemma_brighten_zero(g: Grid)
    requires
        g.wf(),
    ensures
        brightened(g, 0) == g,
{
    let same = brightened(g, 0);
    assert forall|y: int| 0 <= y < g.height() implies same.rows[y] =~= g.rows[y] by {
        assert forall|x: int| 0 <= x < g.width implies same.rows[y][x] == g.rows[y][x] by {
            assert(brightened_pixel(g.rows[y][x], 0) == g.rows[y][x]);
        }
    }
    assert(same.rows =~= g.rows);
}

/// Two quarter turns make a half turn.
pub proof fn lemma_quarter_twice(g: Grid)
    requires
        g.wf(),
    ensures
        rotated90(rotated90(g)) == rotated180(g),
{
    let a = rotated90(rotated90(g));
    let b = rotated180(g);
    assert forall|y: int| 0 <= y < g.height() implies a.rows[y] =~= b.rows[y] by {
        assert forall|x: int| 0 <= x < g.width implies a.rows[y][x] == b.rows[y][x] by {
            assert(a.rows[y][x] == rotated90(g).rows[g.width - 1 - x][y]);
        }
    }
    assert(a.rows =~= b.rows);
}

/// A quarter turn after a half turn makes three quarters.
pub proof fn lemma_quarter_after_half(g: Grid)
    requires
        g.wf(),
    ensures
        rotated90(rotated180(g)) == rotated270(g),
{
    let a = rotated90(rotated180(g));
    let b = rotated270(g);
    assert forall|y: int| 0 <= y < g.width implies a.rows[y] =~= b.rows[y] by {
        assert forall|x: int| 0 <= x < g.height() implies a.rows[y][x] == b.rows[y][x] by {
            assert(a.rows[y][x] == rotated180(g).rows[g.height() - 1 - x][y]);
        }
    }
    assert(a.rows =~= b.rows);
}

/// A quarter turn after three quarters gives the image back.
pub proof fn lemma_quarter_after_three(g: Grid)
    requires
        g.wf(),
    ensures
        rotated90(rotated270(g)) == g,
{
    let a = rotated90(rotated270(g));
    assert forall|y: int| 0 <= y < g.height() implies a.rows[y] =~= g.rows[y] by {
        assert forall|x: int| 0 <= x < g.width implies a.rows[y][x] == g.rows[y][x] by {
            assert(a.rows[y][x] == rotated270(g).rows[g.width - 1 - x][y]);
        }
    }
    assert(a.rows =~= g.rows);
}

/// A turn only moves pixels: the pixel at `(x, y)` stands, after a quarter
/// turn, in the column counted from the right by `y` and in row `x`; after a
/// half turn, in the column counted from the right by `x` and the row
/// counted from below by `y`; after three quarters, in column `y` and the row
/// counted from below by `x`.
pub proof fn lemma_turn_moves_pixels(g: Grid, x: int, y: int)
    requires
        g.wf(),
        g.contains(x, y),
    ensures
        rotated90(g).contains(g.height() - 1 - y, x),
        rotated90(g).at(g.height() - 1 - y, x) == g.at(x, y),
        rotated180(g).contains(g.width - 1 - x, g.height() - 1 - y),
        rotated180(g).at(g.width - 1 - x, g.height() - 1 - y) == g.at(x, y),
        rotated270(g).contains(y, g.width - 1 - x),
        rotated270(g).at(y, g.width - 1 - x) == g.at(x, y),
{
}

/// Four quarter turns give the image back.
pub proof fn lemma_rotate_full_turn(g: Grid)
    requires
        g.wf(),
    ensures
        rotated(rotated(rotated(rotated(g, 90), 90), 90), 90) == g,
{
    lemma_quarter_twice(g);
    lemma_quarter_after_half(g);
    lemma_quarter_after_three(g);
}

/// The pixels of a well-formed image determine its raw buffer: images with
/// equal grids have equal buffers, sample for sample.
pub proof fn lemma_grid_determines_samples(a: Image, b: Image)
    requires
        a.wf(),
        b.wf(),
        a@ == b@,
    ensures
        a.samples() == b.samples(),
{
    a.lemma_view();
    b.lemma_view();
    let w = a@.width as int;
    let h = a@.height() as int;
    let s = a.samples();
    let t = b.samples();
    assert(4 * a@.width * a@.height() == 4 * (w * h)) by (nonlinear_arith)
        requires
            w == a@.width,
            h == a@.height(),
    ;
    assert forall|k: int| 0 <= k < s.len() implies s[k] == t[k] by {
        let j = k / 4;
        lemma_pixel_position(w, h, j);
        let x = j % w;
        let y = j / w;
        assert(a@.rows[y][x] == pixel_of(s, y * w + x));
        assert(b@.rows[y][x] == pixel_of(t, y * w + x));
        assert(pixel_of(s, j) == pixel_of(t, j));
        assert(k == 4 * j + k % 4);
    }
    assert(s =~= t);
}

/// Drawing the fractal again for the same escape counts gives the same
/// buffer, sample for sample.
pub proof fn lemma_fractal_repeatable(first: Image, second: Image, escapes: Seq<u8>)
    requires
        first.wf(),
        second.wf(),
        first@ == fractal_grid(escapes),
        second@ == fractal_grid(escapes),
    ensures
        first.samples() == second.samples(),
{
    lemma_grid_determines_samples(first, second);
}

} // verus!

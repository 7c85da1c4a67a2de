//! The test picture: a gradient that fills a window of any size.

use vstd::prelude::*;
use vstd::arithmetic::div_mod::lemma_fundamental_div_mod_converse;
use crate::grid::lemma_grid_index;
use crate::vec2::Vec2;

verus! {

/// The smaller of two numbers.
pub open spec fn least(a: int, b: int) -> int {
    if a <= b {
        a
    } else {
        b
    }
}

/// How far `part` is along `whole`, on a scale from 0 to 255.
pub open spec fn scaled(part: int, whole: int) -> int {
    (part * 255) / whole
}

/// The red, green and blue of the pixel at column `x` of row `y` in a
/// picture of `w` by `h` pixels: red fades to the right and downwards,
/// green to the left and downwards, blue to the right and upwards.
pub open spec fn red(w: int, h: int, x: int, y: int) -> int {
    least(scaled(w - x, w), scaled(h - y, h))
}

pub open spec fn green(w: int, h: int, x: int, y: int) -> int {
    least(scaled(x, w), scaled(h - y, h))
}

pub open spec fn blue(w: int, h: int, x: int, y: int) -> int {
    least(scaled(w - x, w), scaled(y, h))
}

/// The colour of a pixel as one number: opaque alpha in the top byte, then
/// red, green and blue.
pub open spec fn gradient_color(w: int, h: int, x: int, y: int) -> int {
    0xFF00_0000 + red(w, h, x, y) * 0x1_0000 + green(w, h, x, y) * 0x100 + blue(w, h, x, y)
}

/// A part of a whole, scaled to 255, is at most 255.
pub proof fn lemma_scaled_range(part: int, whole: int)
    requires
        0 <= part <= whole,
        0 < whole,
    ensures
        0 <= scaled(part, whole) <= 255,
{
    assert(0 <= (part * 255) / whole <= 255) by (nonlinear_arith)
        requires
            0 <= part <= whole,
            0 < whole,
    ;
}

fn scale(part: u32, whole: u32) -> (v: u32)
    requires
        part <= whole,
        0 < whole,
    ensures
        v == scaled(part as int, whole as int),
        v <= 255,
{
    proof {
        lemma_scaled_range(part as int, whole as int);
    }
    let wide: u64 = (part as u64 * 255) / (whole as u64);
    wide as u32
}

fn smaller(a: u32, b: u32) -> (v: u32)
    ensures
        v == least(a as int, b as int),
{
    if a <= b {
        a
    } else {
        b
    }
}

/// Computes the colour of one pixel of the gradient.
pub fn gradient_pixel(size: Vec2<u32>, x: u32, y: u32) -> (color: u32)
    requires
        x < size.x,
        y < size.y,
    ensures
        color == gradient_color(size.x as int, size.y as int, x as int, y as int),
{
    let right = scale(size.x - x, size.x);
    let left = scale(x, size.x);
    let down = scale(size.y - y, size.y);
    let up = scale(y, size.y);
    let r = smaller(right, down);
    let g = smaller(left, down);
    let b = smaller(right, up);
    0xFF00_0000 + r * 0x1_0000 + g * 0x100 + b
}

/// Draws the gradient for a window of the given size: one colour for each
/// pixel, row after row.
pub fn draw(size: Vec2<u32>) -> (pixels: Vec<u32>)
    requires
        size.x * size.y <= usize::MAX,
    ensures
        pixels@.len() == size.x * size.y,
        forall|x: int, y: int|
            0 <= x < size.x && 0 <= y < size.y ==> #[trigger] pixels@[y * size.x + x]
                == gradient_color(size.x as int, size.y as int, x, y),
{
    let w: usize = size.x as usize;
    let h: usize = size.y as usize;
    let total: usize = w * h;
    let mut pixels: Vec<u32> = Vec::new();
    let mut k: usize = 0;
    while k < total
        invariant
            k <= total,
            total == w * h,
            w == size.x,
            h == size.y,
            pixels@.len() == k,
            forall|j: int|
                0 <= j < k ==> #[trigger] pixels@[j] == gradient_color(
                    w as int,
                    h as int,
                    j % (w as int),
                    j / (w as int),
                ),
        decreases total - k,
    {
        assert(w > 0 && h > 0 && k / w < h) by (nonlinear_arith)
            requires
                k < w * h,
        ;
        let x: u32 = (k % w) as u32;
        let y: u32 = (k / w) as u32;
        pixels.push(gradient_pixel(size, x, y));
        k += 1;
    }
    proof {
        assert forall|x: int, y: int| 0 <= x < size.x && 0 <= y < size.y implies #[trigger] pixels@[y
            * size.x + x] == gradient_color(size.x as int, size.y as int, x, y) by {
            lemma_grid_index(x, y, w as int, h as int);
            lemma_fundamental_div_mod_converse(y * w + x, w as int, y, x);
        }
    }
    pixels
}

} // verus!

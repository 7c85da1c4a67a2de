//! The glyph atlas: one packed coverage bitmap that holds a fixed set of
//! rasterized glyphs, each in a cell of its own.

use vstd::prelude::*;
use vstd::arithmetic::div_mod::lemma_fundamental_div_mod_converse;
use crate::grid::lemma_grid_index;
use crate::vec2::Vec2;

verus! {

/// Why no atlas could be produced.
#[derive(Debug, Clone, Copy, PartialEq, Eq, Structural)]
pub enum FontError {
    /// The font resource could not be loaded.
    Unloadable,
    /// A requested character could not be rasterized.
    Unrenderable,
}

/// The rasterized image of one glyph: `rows` rows of `width` coverage
/// bytes, with the bearings that place it relative to the pen position.
#[derive(Debug, Clone)]
pub struct GlyphBitmap {
    /// Pixels in a row.
    pub width: usize,
    /// Number of rows.
    pub rows: usize,
    /// Distance from the pen position to the leftmost column.
    pub left: i32,
    /// Distance from the baseline up to the topmost row.
    pub top: i32,
    /// Coverage values, row after row, `width` of them to a row.
    pub buffer: Vec<u8>,
}

impl GlyphBitmap {
    /// The buffer holds exactly `rows` rows of `width` bytes.
    pub open spec fn wf(&self) -> bool {
        self.buffer@.len() == self.width * self.rows
    }

    /// The coverage at column `x` of row `y`, counted from the top-left
    /// corner of the bitmap; zero outside of it.
    pub open spec fn coverage(&self, x: int, y: int) -> u8 {
        if 0 <= x < self.width && 0 <= y < self.rows {
            self.buffer@[y * self.width + x]
        } else {
            0
        }
    }
}

/// How the pixels of a rendered bitmap are stored.
#[derive(Debug, Clone, Copy, PartialEq, Eq, Structural)]
pub enum PixelLayout {
    /// The reserved value: no layout.
    Reserved,
    /// One bit to the pixel.
    Mono,
    /// One byte of coverage to the pixel.
    Gray,
    Gray2,
    Gray4,
    Lcd,
    LcdV,
    Bgra,
    /// A layout that has no name here.
    Unknown,
}

/// The conditions under which a raster handed over by a font engine is
/// taken: one byte of coverage to the pixel, non-negative dimensions, rows
/// of `pitch` bytes that hold at least `width` pixels each, and a buffer
/// that holds all the rows.
pub open spec fn raster_accepted(mode: PixelLayout, width: int, rows: int, pitch: int, len: int) -> bool {
    &&& mode == PixelLayout::Gray
    &&& 0 <= width <= pitch
    &&& 0 <= rows
    &&& pitch * rows <= len
}

impl GlyphBitmap {
    /// Takes over a raster whose rows are `pitch` bytes apart, dropping the
    /// padding at the end of each row.
    pub fn from_raster(
        mode: PixelLayout,
        width: i32,
        rows: i32,
        pitch: i32,
        left: i32,
        top: i32,
        data: &Vec<u8>,
    ) -> (res: Result<GlyphBitmap, FontError>)
        ensures
            res is Ok <==> raster_accepted(
                mode,
                width as int,
                rows as int,
                pitch as int,
                data@.len() as int,
            ),
            res matches Err(e) ==> e == FontError::Unrenderable,
            res matches Ok(g) ==> {
                &&& g.wf()
                &&& g.width == width
                &&& g.rows == rows
                &&& g.left == left
                &&& g.top == top
                &&& forall|x: int, y: int|
                    0 <= x < width && 0 <= y < rows ==> #[trigger] g.coverage(x, y) == data@[y
                        * pitch + x]
            },
    {
        if mode != PixelLayout::Gray || width < 0 || rows < 0 || pitch < width {
            return Err(FontError::Unrenderable);
        }
        let w: usize = width as usize;
        let h: usize = rows as usize;
        let p: usize = pitch as usize;
        assert(p * h <= 0x7fff_ffff * 0x7fff_ffff) by (nonlinear_arith)
            requires
                p <= 0x7fff_ffff,
                h <= 0x7fff_ffff,
        ;
        let needed: u64 = (p as u64) * (h as u64);
        if needed > data.len() as u64 {
            return Err(FontError::Unrenderable);
        }
        let mut buffer: Vec<u8> = Vec::new();
        let mut y: usize = 0;
        while y < h
            invariant
                y <= h,
                w <= p,
                p * h <= data@.len() <= usize::MAX,
                buffer@.len() == y * w,
                forall|i: int, j: int|
                    0 <= i < w && 0 <= j < y ==> #[trigger] buffer@[j * w + i] == data@[j * p + i],
            decreases h - y,
        {
            let mut x: usize = 0;
            while x < w
                invariant
                    x <= w,
                    y < h,
                    w <= p,
                    p * h <= data@.len() <= usize::MAX,
                    buffer@.len() == y * w + x,
                    forall|i: int, j: int|
                        0 <= i < w && 0 <= j < y ==> #[trigger] buffer@[j * w + i] == data@[j * p
                            + i],
                    forall|i: int| 0 <= i < x ==> #[trigger] buffer@[y * w + i] == data@[y * p + i],
                decreases w - x,
            {
                proof {
                    lemma_grid_index(x as int, y as int, p as int, h as int);
                }
                let ghost before = buffer@;
                buffer.push(data[y * p + x]);
                proof {
                    assert forall|i: int, j: int| 0 <= i < w && 0 <= j < y implies #[trigger] buffer@[j
                        * w + i] == data@[j * p + i] by {
                        lemma_grid_index(i, j, w as int, y as int);
                        assert(before[j * w + i] == data@[j * p + i]);
                    }
                }
                x += 1;
            }
            proof {
                assert((y + 1) * w == y * w + w) by (nonlinear_arith);
                assert forall|i: int, j: int| 0 <= i < w && 0 <= j < y + 1 implies #[trigger] buffer@[j
                    * w + i] == data@[j * p + i] by {
                    if j == y {
                        assert(buffer@[y * w + i] == data@[y * p + i]);
                    }
                }
            }
            y += 1;
        }
        let g = GlyphBitmap { width: w, rows: h, left, top, buffer };
        assert(g.wf()) by {
            assert(h * w == w * h) by (nonlinear_arith);
        }
        assert forall|x: int, y: int| 0 <= x < width && 0 <= y < rows implies #[trigger] g.coverage(
            x,
            y,
        ) == data@[y * pitch + x] by {
            assert(g.buffer@[y * w + x] == data@[y * p + x]);
        }
        Ok(g)
    }
}

/// Where a glyph was put: the index of its cell, and the offset of its
/// bitmap's top-left corner from the top-left corner of that cell.
#[derive(Debug, Clone, Copy, PartialEq, Eq)]
pub struct GlyphPlacement {
    pub cell: usize,
    pub offset: Vec2<i64>,
}

/// What an atlas is: `count` cells of `cell_w` by `cell_h` pixels side by
/// side, stored row after row, and one placement for each cell.
pub struct AtlasModel {
    pub cell_w: nat,
    pub cell_h: nat,
    pub count: nat,
    pub pixels: Seq<u8>,
    pub placements: Seq<GlyphPlacement>,
}

impl AtlasModel {
    /// The width of the whole atlas in pixels.
    pub open spec fn width(self) -> nat {
        self.cell_w * self.count
    }

    /// The height of the whole atlas in pixels.
    pub open spec fn height(self) -> nat {
        self.cell_h
    }

    /// The coverage stored at column `col` of row `row`.
    pub open spec fn at(self, col: int, row: int) -> u8 {
        self.pixels[row * self.width() + col]
    }
}

/// The offset at which a glyph is drawn inside a cell of height `cell_h`:
/// its left bearing across, and down by the cell height less its top
/// bearing, so that all glyphs share the baseline at the bottom of the cell.
pub open spec fn glyph_offset(g: GlyphBitmap, cell_h: int) -> (int, int) {
    (g.left as int, cell_h - g.top)
}

/// The coverage that glyph `g` gives to column `cx` of row `row` of its own
/// cell. Whatever of the bitmap falls outside the cell is never asked for.
pub open spec fn cell_pixel(g: GlyphBitmap, cell_h: int, cx: int, row: int) -> u8 {
    g.coverage(cx - glyph_offset(g, cell_h).0, row - glyph_offset(g, cell_h).1)
}

/// The coverage at column `col` of row `row` of the atlas of `glyphs`: that
/// of the glyph whose cell the column belongs to.
pub open spec fn atlas_pixel(glyphs: Seq<GlyphBitmap>, cell_w: int, cell_h: int, col: int, row: int) -> u8 {
    cell_pixel(glyphs[col / cell_w], cell_h, col % cell_w, row)
}

/// The placement of glyph `i` of `glyphs`.
pub open spec fn placement_of(glyphs: Seq<GlyphBitmap>, cell_h: int, i: int) -> GlyphPlacement {
    GlyphPlacement {
        cell: i as usize,
        offset: Vec2 {
            x: glyph_offset(glyphs[i], cell_h).0 as i64,
            y: glyph_offset(glyphs[i], cell_h).1 as i64,
        },
    }
}

/// The atlas of `glyphs` with cells of `cell_w` by `cell_h` pixels.
pub open spec fn atlas_of(glyphs: Seq<GlyphBitmap>, cell_w: nat, cell_h: nat) -> AtlasModel {
    AtlasModel {
        cell_w,
        cell_h,
        count: glyphs.len(),
        pixels: Seq::new(
            cell_w * glyphs.len() * cell_h,
            |k: int|
                atlas_pixel(
                    glyphs,
                    cell_w as int,
                    cell_h as int,
                    k % (cell_w * glyphs.len()) as int,
                    k / (cell_w * glyphs.len()) as int,
                ),
        ),
        placements: Seq::new(glyphs.len(), |i: int| placement_of(glyphs, cell_h as int, i)),
    }
}

/// Every glyph of the sequence holds a buffer of the right length.
pub open spec fn all_wf(glyphs: Seq<GlyphBitmap>) -> bool {
    forall|i: int| 0 <= i < glyphs.len() ==> (#[trigger] glyphs[i]).wf()
}

/// Reads the coverage that `g` gives to one pixel of its cell.
pub fn glyph_pixel(g: &GlyphBitmap, cell_h: u32, cx: usize, row: usize) -> (v: u8)
    requires
        g.wf(),
    ensures
        v == cell_pixel(*g, cell_h as int, cx as int, row as int),
{
    let sx: i128 = cx as i128 - g.left as i128;
    let sy: i128 = row as i128 - (cell_h as i128 - g.top as i128);
    if 0 <= sx && sx < g.width as i128 && 0 <= sy && sy < g.rows as i128 {
        let x: usize = sx as usize;
        let y: usize = sy as usize;
        proof {
            lemma_grid_index(x as int, y as int, g.width as int, g.rows as int);
            assert(g.buffer@.len() == g.buffer.len());
        }
        g.buffer[y * g.width + x]
    } else {
        0
    }
}

/// A packed coverage bitmap of a fixed set of glyphs. It does not change
/// once it is built.
#[derive(Debug)]
pub struct GlyphAtlas {
    size: Vec2<usize>,
    cell: Vec2<u32>,
    pixels: Vec<u8>,
    placements: Vec<GlyphPlacement>,
}

impl View for GlyphAtlas {
    type V = AtlasModel;

    closed spec fn view(&self) -> AtlasModel {
        AtlasModel {
            cell_w: self.cell.x as nat,
            cell_h: self.cell.y as nat,
            count: self.placements@.len(),
            pixels: self.pixels@,
            placements: self.placements@,
        }
    }
}

impl GlyphAtlas {
    #[verifier::type_invariant]
    spec fn inv(&self) -> bool {
        &&& self.size.x == self.cell.x * self.placements@.len()
        &&& self.size.y == self.cell.y
        &&& self.pixels@.len() == self.size.x * self.size.y
    }

    /// Packs `glyphs` side by side, glyph `i` into cell `i`, each clipped to
    /// its own cell.
    pub fn build(glyphs: &Vec<GlyphBitmap>, cell: Vec2<u32>) -> (atlas: GlyphAtlas)
        requires
            all_wf(glyphs@),
            cell.x * glyphs@.len() <= usize::MAX,
            cell.x * glyphs@.len() * cell.y <= usize::MAX,
        ensures
            atlas@ == atlas_of(glyphs@, cell.x as nat, cell.y as nat),
    {
        let n: usize = glyphs.len();
        let w: usize = cell.x as usize;
        let h: usize = cell.y as usize;
        let tw: usize = w * n;
        let total: usize = tw * h;
        let mut pixels: Vec<u8> = Vec::new();
        let mut k: usize = 0;
        while k < total
            invariant
                k <= total,
                total == tw * h,
                tw == w * n,
                n == glyphs@.len(),
                w == cell.x,
                h == cell.y,
                all_wf(glyphs@),
                pixels@.len() == k,
                forall|j: int|
                    0 <= j < k ==> #[trigger] pixels@[j] == atlas_pixel(
                        glyphs@,
                        w as int,
                        h as int,
                        j % (tw as int),
                        j / (tw as int),
                    ),
            decreases total - k,
        {
            assert(tw > 0 && h > 0 && w > 0 && n > 0) by (nonlinear_arith)
                requires
                    k < tw * h,
                    tw == w * n,
            ;
            let col: usize = k % tw;
            let row: usize = k / tw;
            let i: usize = col / w;
            let cx: usize = col % w;
            assert(i < n) by (nonlinear_arith)
                requires
                    col < w * n,
                    i == col / w,
                    w > 0,
            ;
            let v = glyph_pixel(&glyphs[i], cell.y, cx, row);
            pixels.push(v);
            k += 1;
        }
        let mut placements: Vec<GlyphPlacement> = Vec::new();
        let mut i: usize = 0;
        while i < n
            invariant
                i <= n,
                n == glyphs@.len(),
                placements@.len() == i,
                forall|j: int|
                    0 <= j < i ==> #[trigger] placements@[j] == placement_of(
                        glyphs@,
                        cell.y as int,
                        j,
                    ),
            decreases n - i,
        {
            let g = &glyphs[i];
            let offset = Vec2::new(g.left as i64, cell.y as i64 - g.top as i64);
            placements.push(GlyphPlacement { cell: i, offset });
            i += 1;
        }
        let atlas = GlyphAtlas { size: Vec2::new(tw, h), cell, pixels, placements };
        proof {
            let m = atlas_of(glyphs@, cell.x as nat, cell.y as nat);
            assert(atlas@.pixels =~= m.pixels);
            assert(atlas@.placements =~= m.placements);
        }
        atlas
    }

    /// The size of the whole atlas in pixels.
    pub fn size(&self) -> (s: Vec2<usize>)
        ensures
            s.x == self@.width(),
            s.y == self@.height(),
            self@.pixels.len() == s.x * s.y,
    {
        proof {
            use_type_invariant(self);
        }
        self.size
    }

    /// The size of one cell in pixels.
    pub fn cell_size(&self) -> (c: Vec2<u32>)
        ensures
            c.x == self@.cell_w,
            c.y == self@.cell_h,
    {
        self.cell
    }

    /// The number of glyphs that the atlas holds.
    pub fn glyph_count(&self) -> (n: usize)
        ensures
            n == self@.count,
    {
        self.placements.len()
    }

    /// The coverage values, row after row.
    pub fn pixels(&self) -> (p: &Vec<u8>)
        ensures
            p@ == self@.pixels,
    {
        &self.pixels
    }

    /// The coverage at column `col` of row `row`, if the atlas has such a
    /// pixel.
    pub fn pixel(&self, col: usize, row: usize) -> (v: Option<u8>)
        ensures
            v == if col < self@.width() && row < self@.height() {
                Some(self@.at(col as int, row as int))
            } else {
                None
            },
    {
        proof {
            use_type_invariant(self);
        }
        if col < self.size.x && row < self.size.y {
            proof {
                lemma_grid_index(col as int, row as int, self.size.x as int, self.size.y as int);
                assert(self.pixels@.len() == self.pixels.len());
            }
            Some(self.pixels[row * self.size.x + col])
        } else {
            None
        }
    }

    /// Where glyph `i` was put, if the atlas has such a glyph.
    pub fn placement(&self, i: usize) -> (p: Option<GlyphPlacement>)
        ensures
            p == if i < self@.count {
                Some(self@.placements[i as int])
            } else {
                None
            },
    {
        if i < self.placements.len() {
            Some(self.placements[i])
        } else {
            None
        }
    }
}

/// The atlas of `n` glyphs in cells of `w` by `h` pixels is `w * n` pixels
/// wide and `h` pixels high, holds one byte for each pixel and one
/// placement for each glyph, whatever the glyphs are.
pub proof fn lemma_atlas_dimensions(glyphs: Seq<GlyphBitmap>, cell_w: nat, cell_h: nat)
    ensures
        atlas_of(glyphs, cell_w, cell_h).width() == cell_w * glyphs.len(),
        atlas_of(glyphs, cell_w, cell_h).height() == cell_h,
        atlas_of(glyphs, cell_w, cell_h).pixels.len() == cell_w * glyphs.len() * cell_h,
        atlas_of(glyphs, cell_w, cell_h).placements.len() == glyphs.len(),
{
}

/// Cell `i` of the atlas holds glyph `i`, drawn at its offset and clipped
/// to the cell: the pixel at column `cx` of row `row` of the cell is the
/// glyph's coverage there.
pub proof fn lemma_cell_contents(
    glyphs: Seq<GlyphBitmap>,
    cell_w: nat,
    cell_h: nat,
    i: int,
    cx: int,
    row: int,
)
    requires
        0 <= i < glyphs.len(),
        0 <= cx < cell_w,
        0 <= row < cell_h,
    ensures
        0 <= i * cell_w + cx < cell_w * glyphs.len(),
        (i * cell_w + cx) / (cell_w as int) == i,
        0 <= row * (cell_w * glyphs.len()) + (i * cell_w + cx) < atlas_of(
            glyphs,
            cell_w,
            cell_h,
        ).pixels.len(),
        atlas_of(glyphs, cell_w, cell_h).at(i * cell_w + cx, row) == cell_pixel(
            glyphs[i],
            cell_h as int,
            cx,
            row,
        ),
{
    let n = glyphs.len() as int;
    let w = cell_w as int;
    let tw = w * n;
    let col = i * w + cx;
    lemma_grid_index(cx, i, w, n);
    lemma_grid_index(col, row, tw, cell_h as int);
    let k = row * tw + col;
    lemma_fundamental_div_mod_converse(k, tw, row, col);
    lemma_fundamental_div_mod_converse(col, w, i, cx);
}

/// No glyph bleeds into another glyph's cell: two atlases whose glyph `i`
/// is the same agree on every pixel of cell `i`, whatever their other
/// glyphs are.
pub proof fn lemma_no_cross_cell_bleed(
    a: Seq<GlyphBitmap>,
    b: Seq<GlyphBitmap>,
    cell_w: nat,
    cell_h: nat,
    i: int,
    cx: int,
    row: int,
)
    requires
        a.len() == b.len(),
        0 <= i < a.len(),
        a[i] == b[i],
        0 <= cx < cell_w,
        0 <= row < cell_h,
    ensures
        atlas_of(a, cell_w, cell_h).at(i * cell_w + cx, row) == atlas_of(b, cell_w, cell_h).at(
            i * cell_w + cx,
            row,
        ),
{
    lemma_cell_contents(a, cell_w, cell_h, i, cx, row);
    lemma_cell_contents(b, cell_w, cell_h, i, cx, row);
}

/// A pixel of cell `i` is covered only where glyph `i` itself has
/// coverage: a column to the left of the glyph's left bearing, or at or
/// beyond its left bearing plus its width, stays empty, whatever the
/// neighbouring glyphs hold.
pub proof fn lemma_outside_glyph_is_empty(
    glyphs: Seq<GlyphBitmap>,
    cell_w: nat,
    cell_h: nat,
    i: int,
    cx: int,
    row: int,
)
    requires
        0 <= i < glyphs.len(),
        0 <= cx < cell_w,
        0 <= row < cell_h,
        cx < glyphs[i].left || cx >= glyphs[i].left + glyphs[i].width || row < cell_h
            - glyphs[i].top || row >= cell_h - glyphs[i].top + glyphs[i].rows,
    ensures
        atlas_of(glyphs, cell_w, cell_h).at(i * cell_w + cx, row) == 0,
{
    lemma_cell_contents(glyphs, cell_w, cell_h, i, cx, row);
}

} // verus!

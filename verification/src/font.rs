//! Rasterizing the glyphs of a font with the font engine and packing them
//! into an atlas.

use vstd::prelude::*;
use crate::atlas::{all_wf, atlas_of, FontError, GlyphAtlas, GlyphBitmap, PixelLayout};
use crate::vec2::Vec2;

verus! {

/// The nominal character width at which glyphs are rasterized, in 1/64 of
/// a point; the height follows the width.
pub const NOMINAL_WIDTH: isize = 2560;

/// The resolution at which glyphs are rasterized, in dots per inch.
pub const RESOLUTION: u32 = 50;

/// `freetype::Library`, an instance of the font engine; opaque here.
#[verifier::external_type_specification]
#[verifier::external_body]
pub struct ExLibrary(freetype::Library);

/// `freetype::Face`, an opened font face with its glyph slot; opaque here.
#[verifier::external_type_specification]
#[verifier::external_body]
#[verifier::reject_recursive_types(BYTES)]
pub struct ExFace<BYTES>(freetype::Face<BYTES>);

/// `freetype::GlyphSlot`, the place where a face keeps the glyph loaded
/// last; opaque here.
#[verifier::external_type_specification]
#[verifier::external_body]
pub struct ExGlyphSlot(freetype::GlyphSlot);

/// `freetype::Bitmap`, the descriptor of a rendered bitmap; opaque here.
#[verifier::external_type_specification]
#[verifier::external_body]
pub struct ExBitmap(freetype::Bitmap);

/// `freetype::Error`, the engine's error codes; opaque here.
#[verifier::external_type_specification]
#[verifier::external_body]
pub struct ExError(freetype::Error);

/// `freetype::Library::init`: a new instance of the font engine, or the
/// engine's error. Nothing is claimed of the outcome.
#[verifier::external_body]
fn engine_init() -> (res: Result<freetype::Library, freetype::Error>) {
    freetype::Library::init()
}

/// `freetype::Library::new_memory_face`: the first face of the font held in
/// `font`, or the engine's error. Nothing is claimed of the outcome.
#[verifier::external_body]
fn engine_open(library: &freetype::Library, font: Vec<u8>) -> (res: Result<
    freetype::Face,
    freetype::Error,
>) {
    library.new_memory_face(font, 0)
}

/// `freetype::Face::set_char_size`: asks the face for a character size in
/// 1/64 of a point at a resolution in dots per inch. Nothing is claimed of
/// the outcome.
#[verifier::external_body]
fn engine_set_char_size(
    face: &freetype::Face,
    width: isize,
    height: isize,
    horizontal: u32,
    vertical: u32,
) -> (res: Result<(), freetype::Error>) {
    face.set_char_size(width, height, horizontal, vertical)
}

/// `freetype::Face::load_char` with the flag that asks for a rendered
/// bitmap: loads the glyph of a character code into the face's glyph slot.
/// Nothing is claimed of the outcome.
#[verifier::external_body]
fn engine_load_char(face: &freetype::Face, code: usize) -> (res: Result<(), freetype::Error>) {
    face.load_char(code, freetype::face::LoadFlag::RENDER)
}

/// `freetype::Face::glyph`: the glyph slot of the face.
#[verifier::external_body]
fn engine_glyph(face: &freetype::Face) -> (slot: freetype::GlyphSlot) {
    *face.glyph()
}

/// `freetype::GlyphSlot::bitmap_left`: the left bearing of the bitmap in
/// the slot. Nothing is claimed of the value.
#[verifier::external_body]
fn engine_bitmap_left(slot: &freetype::GlyphSlot) -> (left: i32) {
    slot.bitmap_left()
}

/// `freetype::GlyphSlot::bitmap_top`: the top bearing of the bitmap in the
/// slot. Nothing is claimed of the value.
#[verifier::external_body]
fn engine_bitmap_top(slot: &freetype::GlyphSlot) -> (top: i32) {
    slot.bitmap_top()
}

/// `freetype::GlyphSlot::bitmap`: the descriptor of the bitmap in the slot.
#[verifier::external_body]
fn engine_bitmap(slot: &freetype::GlyphSlot) -> (bitmap: freetype::Bitmap) {
    slot.bitmap()
}

/// `freetype::Bitmap::width`. Nothing is claimed of the value.
#[verifier::external_body]
fn engine_bitmap_width(bitmap: &freetype::Bitmap) -> (width: i32) {
    bitmap.width()
}

/// `freetype::Bitmap::rows`. Nothing is claimed of the value.
#[verifier::external_body]
fn engine_bitmap_rows(bitmap: &freetype::Bitmap) -> (rows: i32) {
    bitmap.rows()
}

/// `freetype::Bitmap::pitch`. Nothing is claimed of the value.
#[verifier::external_body]
fn engine_bitmap_pitch(bitmap: &freetype::Bitmap) -> (pitch: i32) {
    bitmap.pitch()
}

/// `freetype::Bitmap::pixel_mode`: how the pixels of the bitmap are stored,
/// variant for variant; a mode that the engine's binding does not know is
/// `Unknown`. Nothing is claimed of the value.
#[verifier::external_body]
fn engine_bitmap_pixel_mode(bitmap: &freetype::Bitmap) -> (mode: PixelLayout) {
    match bitmap.pixel_mode() {
        Ok(freetype::bitmap::PixelMode::None) => PixelLayout::Reserved,
        Ok(freetype::bitmap::PixelMode::Mono) => PixelLayout::Mono,
        Ok(freetype::bitmap::PixelMode::Gray) => PixelLayout::Gray,
        Ok(freetype::bitmap::PixelMode::Gray2) => PixelLayout::Gray2,
        Ok(freetype::bitmap::PixelMode::Gray4) => PixelLayout::Gray4,
        Ok(freetype::bitmap::PixelMode::Lcd) => PixelLayout::Lcd,
        Ok(freetype::bitmap::PixelMode::LcdV) => PixelLayout::LcdV,
        Ok(freetype::bitmap::PixelMode::Bgra) => PixelLayout::Bgra,
        Err(_) => PixelLayout::Unknown,
    }
}

/// `freetype::Bitmap::buffer`: a copy of the bytes of the bitmap. Nothing
/// is claimed of their number or their values.
#[verifier::external_body]
fn engine_bitmap_buffer(bitmap: &freetype::Bitmap) -> (data: Vec<u8>) {
    bitmap.buffer().to_vec()
}

/// Rasterizes one character with the face and takes over its bitmap. A
/// character that the engine cannot load, or whose raster is not accepted,
/// cannot be rendered.
pub fn rasterize(face: &freetype::Face, c: char) -> (res: Result<GlyphBitmap, FontError>)
    ensures
        res matches Ok(g) ==> g.wf(),
        res matches Err(e) ==> e == FontError::Unrenderable,
{
    let code: u32 = c as u32;
    match engine_load_char(face, code as usize) {
        Ok(()) => {},
        Err(_) => {
            return Err(FontError::Unrenderable);
        },
    }
    let slot = engine_glyph(face);
    let left = engine_bitmap_left(&slot);
    let top = engine_bitmap_top(&slot);
    let bitmap = engine_bitmap(&slot);
    let mode = engine_bitmap_pixel_mode(&bitmap);
    let width = engine_bitmap_width(&bitmap);
    let rows = engine_bitmap_rows(&bitmap);
    let pitch = engine_bitmap_pitch(&bitmap);
    let data = engine_bitmap_buffer(&bitmap);
    GlyphBitmap::from_raster(mode, width, rows, pitch, left, top, &data)
}

/// Whether `atlas` is an atlas of `count` glyphs in cells of the given
/// size: one that packing some `count` sound glyph bitmaps gives.
pub open spec fn is_atlas_of_some(atlas: GlyphAtlas, count: nat, cell: Vec2<u32>) -> bool {
    exists|glyphs: Seq<GlyphBitmap>|
        glyphs.len() == count && all_wf(glyphs) && #[trigger] atlas_of(
            glyphs,
            cell.x as nat,
            cell.y as nat,
        ) == atlas@
}

/// Rasterizes `chars` in their order with the face, at the nominal size,
/// and packs them into an atlas, character `i` into cell `i`. A face that
/// does not take the nominal size is unloadable; no atlas is handed out
/// unless every character was rendered.
pub fn atlas_from_face(face: &freetype::Face, chars: &Vec<char>, cell: Vec2<u32>) -> (res: Result<
    GlyphAtlas,
    FontError,
>)
    requires
        cell.x * chars@.len() <= usize::MAX,
        cell.x * chars@.len() * cell.y <= usize::MAX,
    ensures
        res matches Ok(atlas) ==> is_atlas_of_some(atlas, chars@.len(), cell),
{
    match engine_set_char_size(face, NOMINAL_WIDTH, 0, RESOLUTION, 0) {
        Ok(()) => {},
        Err(_) => {
            return Err(FontError::Unloadable);
        },
    }
    let mut glyphs: Vec<GlyphBitmap> = Vec::new();
    let mut i: usize = 0;
    while i < chars.len()
        invariant
            i <= chars@.len(),
            glyphs@.len() == i,
            all_wf(glyphs@),
        decreases chars@.len() - i,
    {
        match rasterize(face, chars[i]) {
            Ok(g) => {
                glyphs.push(g);
            },
            Err(e) => {
                return Err(e);
            },
        }
        i += 1;
    }
    let atlas = GlyphAtlas::build(&glyphs, cell);
    assert(atlas_of(glyphs@, cell.x as nat, cell.y as nat) == atlas@);
    Ok(atlas)
}

/// Builds the atlas of `chars` from a font resource held in memory. A
/// resource that the engine does not open is unloadable.
pub fn load_font(font: Vec<u8>, chars: &Vec<char>, cell: Vec2<u32>) -> (res: Result<
    GlyphAtlas,
    FontError,
>)
    requires
        cell.x * chars@.len() <= usize::MAX,
        cell.x * chars@.len() * cell.y <= usize::MAX,
    ensures
        res matches Ok(atlas) ==> is_atlas_of_some(atlas, chars@.len(), cell),
{
    let library = match engine_init() {
        Ok(library) => library,
        Err(_) => {
            return Err(FontError::Unloadable);
        },
    };
    let face = match engine_open(&library, font) {
        Ok(face) => face,
        Err(_) => {
            return Err(FontError::Unloadable);
        },
    };
    atlas_from_face(&face, chars, cell)
}

} // verus!

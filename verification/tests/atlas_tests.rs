use termwin::atlas::{FontError, GlyphAtlas, GlyphBitmap, GlyphPlacement, PixelLayout};
use termwin::vec2::Vec2;

fn small_glyph() -> GlyphBitmap {
    GlyphBitmap { width: 2, rows: 2, left: 1, top: 2, buffer: vec![1, 2, 3, 4] }
}

fn wide_glyph() -> GlyphBitmap {
    GlyphBitmap { width: 6, rows: 1, left: -1, top: 3, buffer: vec![9, 8, 7, 6, 5, 4] }
}

#[test]
fn vec2_new_keeps_components() {
    let v = Vec2::new(3, -4);
    assert_eq!(v.x, 3);
    assert_eq!(v.y, -4);
    assert_eq!(v, Vec2 { x: 3, y: -4 });
}

#[test]
fn atlas_has_one_cell_per_glyph() {
    let atlas = GlyphAtlas::build(&vec![small_glyph(), wide_glyph()], Vec2::new(4, 3));
    assert_eq!(atlas.size(), Vec2::new(8, 3));
    assert_eq!(atlas.cell_size(), Vec2::new(4, 3));
    assert_eq!(atlas.glyph_count(), 2);
    assert_eq!(atlas.pixels().len(), 24);
}

#[test]
fn atlas_places_and_clips_each_glyph() {
    let atlas = GlyphAtlas::build(&vec![small_glyph(), wide_glyph()], Vec2::new(4, 3));
    let expected: Vec<u8> = vec![
        0, 0, 0, 0, 8, 7, 6, 5,
        0, 1, 2, 0, 0, 0, 0, 0,
        0, 3, 4, 0, 0, 0, 0, 0,
    ];
    assert_eq!(atlas.pixels(), &expected);
    assert_eq!(atlas.pixel(1, 1), Some(1));
    assert_eq!(atlas.pixel(4, 0), Some(8));
    assert_eq!(atlas.pixel(7, 0), Some(5));
    assert_eq!(atlas.pixel(8, 0), None);
    assert_eq!(atlas.pixel(0, 3), None);
}

#[test]
fn atlas_records_placements() {
    let atlas = GlyphAtlas::build(&vec![small_glyph(), wide_glyph()], Vec2::new(4, 3));
    assert_eq!(atlas.placement(0), Some(GlyphPlacement { cell: 0, offset: Vec2::new(1, 1) }));
    assert_eq!(atlas.placement(1), Some(GlyphPlacement { cell: 1, offset: Vec2::new(-1, 0) }));
    assert_eq!(atlas.placement(2), None);
}

#[test]
fn wide_glyph_does_not_bleed_into_neighbours() {
    let wide = GlyphBitmap { width: 12, rows: 3, left: -4, top: 3, buffer: vec![255; 36] };
    let empty = GlyphBitmap { width: 0, rows: 0, left: 0, top: 0, buffer: vec![] };
    let atlas = GlyphAtlas::build(
        &vec![empty.clone(), wide, empty],
        Vec2::new(4, 3),
    );
    for row in 0..3 {
        for col in 0..12 {
            let expected = if col >= 4 && col < 8 { 255 } else { 0 };
            assert_eq!(atlas.pixel(col, row), Some(expected));
        }
    }
}

#[test]
fn narrow_glyph_leaves_rest_of_cell_empty() {
    let narrow = GlyphBitmap { width: 1, rows: 1, left: 0, top: 1, buffer: vec![200] };
    let atlas = GlyphAtlas::build(&vec![narrow.clone(), narrow], Vec2::new(3, 2));
    let expected: Vec<u8> = vec![
        0, 0, 0, 0, 0, 0,
        200, 0, 0, 200, 0, 0,
    ];
    assert_eq!(atlas.pixels(), &expected);
}

#[test]
fn cell_contents_do_not_depend_on_other_glyphs() {
    let a = GlyphAtlas::build(&vec![small_glyph(), wide_glyph()], Vec2::new(4, 3));
    let b = GlyphAtlas::build(&vec![small_glyph(), small_glyph()], Vec2::new(4, 3));
    for row in 0..3 {
        for col in 0..4 {
            assert_eq!(a.pixel(col, row), b.pixel(col, row));
        }
    }
}

#[test]
fn glyph_above_or_below_the_cell_is_clipped() {
    let tall = GlyphBitmap { width: 1, rows: 4, left: 0, top: 3, buffer: vec![1, 2, 3, 4] };
    let atlas = GlyphAtlas::build(&vec![tall], Vec2::new(1, 2));
    // The cell is 2 high and the glyph starts one row above it.
    assert_eq!(atlas.pixels(), &vec![2u8, 3u8]);
}

#[test]
fn empty_atlases() {
    let none = GlyphAtlas::build(&vec![], Vec2::new(4, 3));
    assert_eq!(none.size(), Vec2::new(0, 3));
    assert_eq!(none.pixels().len(), 0);
    let flat = GlyphAtlas::build(&vec![small_glyph()], Vec2::new(4, 0));
    assert_eq!(flat.size(), Vec2::new(4, 0));
    assert_eq!(flat.pixels().len(), 0);
    assert_eq!(flat.glyph_count(), 1);
    let thin = GlyphAtlas::build(&vec![small_glyph()], Vec2::new(0, 3));
    assert_eq!(thin.size(), Vec2::new(0, 3));
    assert_eq!(thin.pixels().len(), 0);
}

#[test]
fn building_twice_gives_the_same_atlas() {
    let glyphs = vec![small_glyph(), wide_glyph()];
    let a = GlyphAtlas::build(&glyphs, Vec2::new(4, 3));
    let b = GlyphAtlas::build(&glyphs, Vec2::new(4, 3));
    assert_eq!(a.size(), b.size());
    assert_eq!(a.pixels(), b.pixels());
}

#[test]
fn raster_with_padded_rows_is_taken_over() {
    let data = vec![1, 2, 0, 0, 3, 4, 0, 0];
    let g = GlyphBitmap::from_raster(PixelLayout::Gray, 2, 2, 4, 5, 6, &data).unwrap();
    assert_eq!(g.width, 2);
    assert_eq!(g.rows, 2);
    assert_eq!(g.left, 5);
    assert_eq!(g.top, 6);
    assert_eq!(g.buffer, vec![1, 2, 3, 4]);
}

#[test]
fn raster_without_pixels_is_taken_over() {
    let g = GlyphBitmap::from_raster(PixelLayout::Gray, 0, 0, 0, 0, 0, &vec![]).unwrap();
    assert_eq!(g.width, 0);
    assert_eq!(g.rows, 0);
    assert_eq!(g.buffer.len(), 0);
}

#[test]
fn malformed_rasters_cannot_be_rendered() {
    let data = vec![0u8; 8];
    assert_eq!(GlyphBitmap::from_raster(PixelLayout::Gray, -1, 2, 4, 0, 0, &data).err(), Some(FontError::Unrenderable));
    assert_eq!(GlyphBitmap::from_raster(PixelLayout::Gray, 2, -1, 4, 0, 0, &data).err(), Some(FontError::Unrenderable));
    assert_eq!(GlyphBitmap::from_raster(PixelLayout::Gray, 5, 2, 4, 0, 0, &data).err(), Some(FontError::Unrenderable));
    assert_eq!(GlyphBitmap::from_raster(PixelLayout::Gray, 2, 2, -4, 0, 0, &data).err(), Some(FontError::Unrenderable));
    assert_eq!(GlyphBitmap::from_raster(PixelLayout::Gray, 2, 3, 4, 0, 0, &data).err(), Some(FontError::Unrenderable));
    assert!(GlyphBitmap::from_raster(PixelLayout::Gray, 2, 2, 4, 0, 0, &data).is_ok());
}

#[test]
fn rasters_of_other_layouts_cannot_be_rendered() {
    let data = vec![0u8; 8];
    let layouts = vec![
        PixelLayout::Reserved,
        PixelLayout::Mono,
        PixelLayout::Gray2,
        PixelLayout::Gray4,
        PixelLayout::Lcd,
        PixelLayout::LcdV,
        PixelLayout::Bgra,
        PixelLayout::Unknown,
    ];
    for layout in layouts {
        let res = GlyphBitmap::from_raster(layout, 2, 2, 4, 0, 0, &data);
        assert_eq!(res.err(), Some(FontError::Unrenderable));
    }
}

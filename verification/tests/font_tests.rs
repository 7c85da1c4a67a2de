use freetype::face::LoadFlag;
use termwin::atlas::FontError;
use termwin::font::{atlas_from_face, load_font, rasterize, NOMINAL_WIDTH, RESOLUTION};
use termwin::vec2::Vec2;

const FONT: &str = "/usr/share/fonts/truetype/dejavu/DejaVuSansMono.ttf";

/// The face of a font that most systems have, if this one has it.
fn system_face() -> Option<freetype::Face> {
    let library = freetype::Library::init().ok()?;
    library.new_face(FONT, 0).ok()
}

fn letters() -> Vec<char> {
    vec!['a', 'b', 'c', 'd', 'e', 'f']
}

#[test]
fn nominal_size_is_forty_points_at_fifty_dpi() {
    assert_eq!(NOMINAL_WIDTH, 40 * 64);
    assert_eq!(RESOLUTION, 50);
}

#[test]
fn empty_resource_is_unloadable() {
    let res = load_font(vec![], &letters(), Vec2::new(32, 24));
    assert_eq!(res.err(), Some(FontError::Unloadable));
}

#[test]
fn resource_that_is_no_font_is_unloadable() {
    let junk: Vec<u8> = "this is not a font file at all".bytes().collect();
    let res = load_font(junk, &letters(), Vec2::new(32, 24));
    assert_eq!(res.err(), Some(FontError::Unloadable));
}

#[test]
fn unloadable_resource_fails_for_an_empty_character_set_too() {
    let res = load_font(vec![0, 1, 2, 3], &vec![], Vec2::new(32, 24));
    assert_eq!(res.err(), Some(FontError::Unloadable));
}

#[test]
fn atlas_of_a_real_font_has_the_stated_dimensions() {
    let face = match system_face() {
        Some(face) => face,
        None => return,
    };
    let atlas = atlas_from_face(&face, &letters(), Vec2::new(32, 24)).unwrap();
    assert_eq!(atlas.size(), Vec2::new(32 * 6, 24));
    assert_eq!(atlas.cell_size(), Vec2::new(32, 24));
    assert_eq!(atlas.glyph_count(), 6);
    assert_eq!(atlas.pixels().len(), 32 * 6 * 24);
}

#[test]
fn atlas_of_a_real_font_is_the_same_each_time() {
    let face = match system_face() {
        Some(face) => face,
        None => return,
    };
    let a = atlas_from_face(&face, &letters(), Vec2::new(32, 24)).unwrap();
    let b = atlas_from_face(&face, &letters(), Vec2::new(32, 24)).unwrap();
    assert_eq!(a.size(), b.size());
    assert_eq!(a.pixels(), b.pixels());
}

#[test]
fn rasterized_glyph_is_what_the_engine_holds() {
    let face = match system_face() {
        Some(face) => face,
        None => return,
    };
    face.set_char_size(40 * 64, 0, 50, 0).unwrap();
    let g = rasterize(&face, 'a').unwrap();
    let slot = face.glyph();
    let bitmap = slot.bitmap();
    assert!(bitmap.width() > 0);
    assert!(bitmap.rows() > 0);
    assert_eq!(g.width, bitmap.width() as usize);
    assert_eq!(g.rows, bitmap.rows() as usize);
    assert_eq!(g.left, slot.bitmap_left());
    assert_eq!(g.top, slot.bitmap_top());
    assert_eq!(g.buffer.len(), g.width * g.rows);
    let pitch = bitmap.pitch() as usize;
    let data = bitmap.buffer();
    for y in 0..g.rows {
        for x in 0..g.width {
            assert_eq!(g.buffer[y * g.width + x], data[y * pitch + x]);
        }
    }
    assert!(g.buffer.iter().any(|v| *v != 0));
}

#[test]
fn each_cell_of_a_real_atlas_holds_its_own_glyph() {
    let face = match system_face() {
        Some(face) => face,
        None => return,
    };
    let chars = letters();
    let (w, h) = (32usize, 24usize);
    let atlas = atlas_from_face(&face, &chars, Vec2::new(32, 24)).unwrap();
    for (i, c) in chars.iter().enumerate() {
        face.load_char(*c as usize, LoadFlag::RENDER).unwrap();
        let slot = face.glyph();
        let bitmap = slot.bitmap();
        let data = bitmap.buffer();
        let (left, top) = (slot.bitmap_left() as i64, slot.bitmap_top() as i64);
        let placement = atlas.placement(i).unwrap();
        assert_eq!(placement.cell, i);
        assert_eq!(placement.offset, Vec2::new(left, h as i64 - top));
        let mut covered = 0;
        for row in 0..h {
            for cx in 0..w {
                let sx = cx as i64 - left;
                let sy = row as i64 - (h as i64 - top);
                let inside = sx >= 0
                    && sx < bitmap.width() as i64
                    && sy >= 0
                    && sy < bitmap.rows() as i64;
                let expected = if inside {
                    data[(sy * bitmap.pitch() as i64 + sx) as usize]
                } else {
                    0
                };
                assert_eq!(atlas.pixel(i * w + cx, row), Some(expected));
                if expected != 0 {
                    covered += 1;
                }
            }
        }
        assert!(covered > 0);
    }
}

#[test]
fn narrow_cells_clip_a_real_glyph() {
    let face = match system_face() {
        Some(face) => face,
        None => return,
    };
    let atlas = atlas_from_face(&face, &vec!['m', ' ', 'm'], Vec2::new(6, 24)).unwrap();
    assert_eq!(atlas.size(), Vec2::new(18, 24));
    // The middle cell holds a space: nothing of its neighbours shows in it.
    for row in 0..24 {
        for cx in 0..6 {
            assert_eq!(atlas.pixel(6 + cx, row), Some(0));
        }
    }
    assert!(atlas.pixels().iter().any(|v| *v != 0));
}

#[test]
fn atlas_of_no_characters_is_empty() {
    let face = match system_face() {
        Some(face) => face,
        None => return,
    };
    let atlas = atlas_from_face(&face, &vec![], Vec2::new(32, 24)).unwrap();
    assert_eq!(atlas.size(), Vec2::new(0, 24));
    assert_eq!(atlas.glyph_count(), 0);
    assert_eq!(atlas.pixels().len(), 0);
}

use std::collections::HashSet;

use basilisk::render::atlas::{Atlas, GlyphInfo, GlyphKey, RasterizedGlyph};

fn glyph(w: u32, h: u32) -> RasterizedGlyph {
    RasterizedGlyph { width: w, height: h, bitmap: vec![7u8; (w * h) as usize] }
}

#[test]
fn glyph_key_new() {
    let key = GlyphKey::new('A', 0);
    assert_eq!(key.character, 'A');
    assert_eq!(key.flags, 0);
}

#[test]
fn glyph_key_variants() {
    let regular = GlyphKey::regular('B');
    assert_eq!(regular.flags, 0);

    let bold = GlyphKey::bold('B');
    assert_eq!(bold.flags, 1);

    let italic = GlyphKey::italic('B');
    assert_eq!(italic.flags, 2);
}

#[test]
fn glyph_key_hash() {
    let mut set = HashSet::new();
    set.insert(GlyphKey::regular('A'));
    set.insert(GlyphKey::bold('A'));

    assert_eq!(set.len(), 2);
    assert!(set.contains(&GlyphKey::regular('A')));
}

#[test]
fn atlas_new() {
    let atlas = Atlas::new(512, 512);
    assert_eq!(atlas.size(), (512, 512));
    assert_eq!(atlas.data().len(), 512 * 512);
}

#[test]
fn atlas_dirty_flag() {
    let mut atlas = Atlas::new(256, 256);
    assert!(!atlas.is_dirty());

    atlas.dirty = true;
    assert!(atlas.is_dirty());

    atlas.mark_clean();
    assert!(!atlas.is_dirty());
}

#[test]
fn atlas_clear() {
    let mut atlas = Atlas::new(256, 256);
    atlas.data[0] = 255;
    atlas.clear();

    assert_eq!(atlas.data[0], 0);
    assert_eq!(atlas.glyph_count(), 0);
}

#[test]
fn atlas_allocate() {
    let mut atlas = Atlas::new(256, 256);

    let pos1 = atlas.allocate(32, 32);
    assert!(pos1.is_some());
    let (x1, y1, page1) = pos1.unwrap();
    assert_eq!((x1, y1), (0, 0));
    assert_eq!(page1, 0);

    let pos2 = atlas.allocate(32, 32);
    assert!(pos2.is_some());
    assert_eq!(pos2.unwrap().0, 33);
}

#[test]
fn atlas_allocate_new_row() {
    let mut atlas = Atlas::new(64, 256);

    atlas.allocate(30, 20);
    atlas.allocate(30, 20);

    let pos = atlas.allocate(30, 20);
    assert!(pos.is_some());
    assert_eq!(pos.unwrap().1, 21);
}

#[test]
fn glyph_info_fields() {
    let info = GlyphInfo { atlas_x: 10, atlas_y: 20, width: 8, height: 12 };
    assert_eq!(info.atlas_x, 10);
    assert_eq!(info.height, 12);
}

#[test]
fn atlas_cache_rasterized_places_and_copies() {
    let mut atlas = Atlas::new(16, 16);
    let info = atlas.cache_rasterized(GlyphKey::regular('a'), glyph(2, 2)).unwrap();
    assert_eq!((info.atlas_x, info.atlas_y, info.width, info.height), (0, 0, 2, 2));
    assert_eq!(atlas.data[0], 7);
    assert_eq!(atlas.data[16 + 1], 7);
    assert_eq!(atlas.data[2], 0);
    assert!(atlas.is_dirty());
    // A second request gives the same placement.
    let again = atlas.cache_rasterized(GlyphKey::regular('a'), glyph(2, 2)).unwrap();
    assert_eq!(again, info);
    assert_eq!(atlas.glyph_count(), 1);
}

#[test]
fn atlas_empty_glyph_has_no_box() {
    let mut atlas = Atlas::new(16, 16);
    let info = atlas.cache_rasterized(GlyphKey::regular(' '), glyph(0, 0)).unwrap();
    assert_eq!(info, GlyphInfo { atlas_x: 0, atlas_y: 0, width: 0, height: 0 });
    assert!(atlas.get(&GlyphKey::regular(' ')).is_some());
}

#[test]
fn atlas_evicts_least_recently_used_row() {
    // Two rows of 4 + 1 pixels fit in a 10 pixel tall atlas.
    let mut atlas = Atlas::new(5, 10);
    atlas.cache_rasterized(GlyphKey::regular('a'), glyph(4, 4)).unwrap();
    atlas.advance_frame();
    atlas.cache_rasterized(GlyphKey::regular('b'), glyph(4, 4)).unwrap();
    atlas.advance_frame();
    // Use 'a' again so that row 1 (holding 'b') is the oldest.
    atlas.cache_rasterized(GlyphKey::regular('a'), glyph(4, 4)).unwrap();
    let c = atlas.cache_rasterized(GlyphKey::regular('c'), glyph(4, 4)).unwrap();
    assert_eq!((c.atlas_x, c.atlas_y), (0, 5));
    assert!(atlas.get(&GlyphKey::regular('b')).is_none());
    assert!(atlas.get(&GlyphKey::regular('a')).is_some());
}

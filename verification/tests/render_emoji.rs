use basilisk::render::emoji::{EmojiAtlas, EmojiKey};

#[test]
fn emoji_key_new() {
    let key = EmojiKey::new("👍");
    assert_eq!(key.emoji, "👍");
}

#[test]
fn emoji_key_from_char() {
    let key = EmojiKey::from_char('😀');
    assert_eq!(key.emoji, "😀");
}

#[test]
fn emoji_atlas_new() {
    let atlas = EmojiAtlas::new(512, 512);
    assert_eq!(atlas.size(), (512, 512));
    assert_eq!(atlas.data().len(), 512 * 512 * 4);
}

#[test]
fn emoji_atlas_dirty() {
    let mut atlas = EmojiAtlas::new(256, 256);
    assert!(!atlas.is_dirty());

    let key = EmojiKey::new("🎉");
    atlas.cache(key, 16, 20);
    assert!(atlas.is_dirty());

    atlas.mark_clean();
    assert!(!atlas.is_dirty());
}

#[test]
fn emoji_atlas_cache() {
    let mut atlas = EmojiAtlas::new(256, 256);
    let key = EmojiKey::new("😀");

    let info = atlas.cache(key.clone(), 16, 20);
    assert!(info.is_some());

    let info = info.unwrap();
    assert_eq!(info.width, 32);
    assert_eq!(info.height, 20);
}

#[test]
fn emoji_atlas_get() {
    let mut atlas = EmojiAtlas::new(256, 256);
    let key = EmojiKey::new("🚀");

    atlas.cache(key.clone(), 16, 20);

    let info = atlas.get(&key);
    assert!(info.is_some());
}

#[test]
fn emoji_atlas_clear() {
    let mut atlas = EmojiAtlas::new(256, 256);
    let key = EmojiKey::new("🌟");
    atlas.cache(key, 16, 20);

    atlas.clear();
    assert_eq!(atlas.emoji_count(), 0);
}

#[test]
fn is_emoji_char() {
    assert!(EmojiAtlas::is_emoji('😀'));
    assert!(EmojiAtlas::is_emoji('🎉'));
    assert!(EmojiAtlas::is_emoji('❤'));
    assert!(!EmojiAtlas::is_emoji('A'));
    assert!(!EmojiAtlas::is_emoji('中'));
}

#[test]
fn is_emoji_str() {
    assert!(EmojiAtlas::is_emoji_str("😀hello"));
    assert!(EmojiAtlas::is_emoji_str("🎉"));
    assert!(!EmojiAtlas::is_emoji_str("hello"));
    assert!(!EmojiAtlas::is_emoji_str(""));
}

#[test]
fn emoji_atlas_multiple() {
    let mut atlas = EmojiAtlas::new(256, 256);

    atlas.cache(EmojiKey::new("😀"), 16, 20);
    atlas.cache(EmojiKey::new("🎉"), 16, 20);
    atlas.cache(EmojiKey::new("🚀"), 16, 20);

    assert_eq!(atlas.emoji_count(), 3);
}

#[test]
fn emoji_atlas_duplicate() {
    let mut atlas = EmojiAtlas::new(256, 256);
    let key = EmojiKey::new("⭐");

    let info1 = atlas.cache(key.clone(), 16, 20).unwrap();
    let info2 = atlas.cache(key, 16, 20).unwrap();

    assert_eq!(info1.atlas_x, info2.atlas_x);
    assert_eq!(info1.atlas_y, info2.atlas_y);
    assert_eq!(atlas.emoji_count(), 1);
}

#[test]
fn emoji_atlas_packs_rows() {
    // 34 + 2 padding wide boxes: three fit in 110 pixels, the fourth starts a row.
    let mut atlas = EmojiAtlas::new(110, 100);
    let a = atlas.cache(EmojiKey::new("1"), 17, 20).unwrap();
    let b = atlas.cache(EmojiKey::new("2"), 17, 20).unwrap();
    let c = atlas.cache(EmojiKey::new("3"), 17, 20).unwrap();
    let d = atlas.cache(EmojiKey::new("4"), 17, 20).unwrap();
    assert_eq!((a.atlas_x, a.atlas_y), (0, 0));
    assert_eq!((b.atlas_x, b.atlas_y), (36, 0));
    assert_eq!((c.atlas_x, c.atlas_y), (72, 0));
    assert_eq!((d.atlas_x, d.atlas_y), (0, 22));
}

#[test]
fn emoji_atlas_full() {
    let mut atlas = EmojiAtlas::new(64, 10);
    assert!(atlas.cache(EmojiKey::new("x"), 8, 20).is_none());
    assert_eq!(atlas.emoji_count(), 0);
}

//! Emoji: which characters are drawn from the color emoji atlas, and the
//! keys and placements of cached emoji.

use vstd::prelude::*;
use crate::text::{chars_of, chars_eq, string_from_chars};

verus! {

/// Key for looking up a cached emoji.
#[derive(Debug, Clone, PartialEq, Eq, Hash)]
pub struct EmojiKey {
    /// The emoji text (possibly several code points).
    pub emoji: String,
}

impl EmojiKey {
    pub fn new(s: &str) -> (k: EmojiKey)
        ensures
            k.emoji@ == s@,
    {
        EmojiKey { emoji: s.to_string() }
    }

    pub fn from_char(c: char) -> (k: EmojiKey)
        ensures
            k.emoji@ == seq![c],
    {
        let v: Vec<char> = vec![c];
        proof {
            assert(v@ =~= seq![c]);
        }
        EmojiKey { emoji: string_from_chars(v.as_slice()) }
    }
}

/// Where a cached emoji sits in the atlas.
#[derive(Debug, Clone, Copy, PartialEq, Eq, Structural)]
pub struct EmojiInfo {
    pub atlas_x: u32,
    pub atlas_y: u32,
    pub width: u32,
    pub height: u32,
}

/// The code point ranges drawn as color emoji: the pictographic planes,
/// miscellaneous symbols, dingbats and the scattered emoji-presentation
/// symbols.
pub open spec fn emoji_char(c: char) -> bool {
    let u = c as u32;
    ||| 0x1F300 <= u <= 0x1F9FF
    ||| 0x2600 <= u <= 0x26FF
    ||| 0x2700 <= u <= 0x27BF
    ||| 0x1F600 <= u <= 0x1F64F
    ||| 0x1F680 <= u <= 0x1F6FF
    ||| 0x1F1E0 <= u <= 0x1F1FF
    ||| 0x231A <= u <= 0x231B
    ||| 0x23E9 <= u <= 0x23F3
    ||| 0x23F8 <= u <= 0x23FA
    ||| 0x25AA <= u <= 0x25AB
    ||| u == 0x25B6
    ||| u == 0x25C0
    ||| 0x25FB <= u <= 0x25FE
    ||| 0x2934 <= u <= 0x2935
    ||| 0x2B05 <= u <= 0x2B07
    ||| 0x2B1B <= u <= 0x2B1C
    ||| u == 0x2B50
    ||| u == 0x2B55
    ||| u == 0x3030
    ||| u == 0x303D
    ||| u == 0x3297
    ||| u == 0x3299
}

/// A packing row of the atlas.
#[derive(Debug, Clone, Copy, PartialEq, Eq, Structural)]
pub struct AtlasRow {
    pub y: u32,
    pub height: u32,
    pub x_cursor: u32,
}

/// The index of the first row a padded box of `pw` by `ph` fits in at its
/// cursor, if any.
pub open spec fn first_fit(rows: Seq<AtlasRow>, pw: int, ph: int, width: int) -> Option<int>
    decreases rows.len(),
{
    if rows.len() == 0 {
        None
    } else {
        match first_fit(rows.drop_last(), pw, ph, width) {
            Some(i) => Some(i),
            None => if rows.last().height >= ph && rows.last().x_cursor + pw <= width {
                Some(rows.len() - 1)
            } else {
                None
            },
        }
    }
}

proof fn lemma_first_fit(rows: Seq<AtlasRow>, pw: int, ph: int, width: int, i: int)
    requires
        0 <= i <= rows.len(),
        forall|j: int| 0 <= j < i ==> !(#[trigger] rows[j].height >= ph && rows[j].x_cursor + pw <= width),
    ensures
        i < rows.len() && rows[i].height >= ph && rows[i].x_cursor + pw <= width ==> first_fit(rows, pw, ph, width) == Some(i),
        i == rows.len() ==> first_fit(rows, pw, ph, width).is_none(),
    decreases rows.len(),
{
    if rows.len() > 0 {
        let t = rows.drop_last();
        if i < rows.len() {
            if i < rows.len() - 1 {
                assert forall|j: int| 0 <= j < i implies !(#[trigger] t[j].height >= ph && t[j].x_cursor + pw <= width) by {
                    assert(t[j] == rows[j]);
                }
                lemma_first_fit(t, pw, ph, width, i);
                assert(t[i] == rows[i]);
            } else {
                assert forall|j: int| 0 <= j < t.len() implies !(#[trigger] t[j].height >= ph && t[j].x_cursor + pw <= width) by {
                    assert(t[j] == rows[j]);
                }
                lemma_first_fit(t, pw, ph, width, t.len() as int);
            }
        } else {
            assert forall|j: int| 0 <= j < t.len() implies !(#[trigger] t[j].height >= ph && t[j].x_cursor + pw <= width) by {
                assert(t[j] == rows[j]);
            }
            lemma_first_fit(t, pw, ph, width, t.len() as int);
        }
    }
}

/// The cached emoji as a map from their text, later entries over earlier.
pub open spec fn emoji_map(s: Seq<(EmojiKey, EmojiInfo)>) -> Map<Seq<char>, EmojiInfo>
    decreases s.len(),
{
    if s.len() == 0 {
        Map::empty()
    } else {
        emoji_map(s.drop_last()).insert(s.last().0.emoji@, s.last().1)
    }
}

pub open spec fn keys_distinct(s: Seq<(EmojiKey, EmojiInfo)>) -> bool {
    forall|i: int, j: int| 0 <= i < s.len() && 0 <= j < s.len() && i != j ==> s[i].0.emoji@ != s[j].0.emoji@
}

proof fn lemma_emoji_map_dom(s: Seq<(EmojiKey, EmojiInfo)>, k: Seq<char>)
    ensures
        emoji_map(s).dom().contains(k) <==> exists|i: int| 0 <= i < s.len() && (#[trigger] s[i]).0.emoji@ == k,
    decreases s.len(),
{
    if s.len() > 0 {
        lemma_emoji_map_dom(s.drop_last(), k);
        if emoji_map(s).dom().contains(k) && s.last().0.emoji@ != k {
            let i = choose|i: int| 0 <= i < s.len() - 1 && (#[trigger] s.drop_last()[i]).0.emoji@ == k;
            assert(s[i] == s.drop_last()[i]);
        }
        if exists|i: int| 0 <= i < s.len() && (#[trigger] s[i]).0.emoji@ == k {
            let i = choose|i: int| 0 <= i < s.len() && (#[trigger] s[i]).0.emoji@ == k;
            if i < s.len() - 1 {
                assert(s.drop_last()[i] == s[i]);
            }
        }
    }
}

proof fn lemma_emoji_map_at(s: Seq<(EmojiKey, EmojiInfo)>, i: int)
    requires
        keys_distinct(s),
        0 <= i < s.len(),
    ensures
        emoji_map(s).dom().contains(s[i].0.emoji@),
        emoji_map(s)[s[i].0.emoji@] == s[i].1,
    decreases s.len(),
{
    if i < s.len() - 1 {
        let t = s.drop_last();
        assert(t[i] == s[i]);
        assert(keys_distinct(t)) by {
            assert forall|a: int, b: int| 0 <= a < t.len() && 0 <= b < t.len() && a != b implies t[a].0.emoji@ != t[b].0.emoji@ by {
                assert(t[a] == s[a] && t[b] == s[b]);
            }
        }
        lemma_emoji_map_at(t, i);
        assert(s.last() == s[s.len() - 1]);
    }
}

/// Color emoji atlas: an RGBA texture with the cached emoji packed in rows.
pub struct EmojiAtlas {
    /// RGBA texture data, 4 bytes per pixel.
    pub data: Vec<u8>,
    pub width: u32,
    pub height: u32,
    /// Cached emoji and their placements.
    pub emoji: Vec<(EmojiKey, EmojiInfo)>,
    /// Packing rows, top to bottom.
    pub rows: Vec<AtlasRow>,
    /// Padding between emoji.
    pub padding: u32,
    /// The texture changed since it was last uploaded.
    pub dirty: bool,
}

/// The placeholder color's channels for an emoji's text: the low three bytes
/// of the wrapping sum of its code points.
pub open spec fn code_point_sum(s: Seq<char>) -> u32
    decreases s.len(),
{
    if s.len() == 0 { 0 } else { ((code_point_sum(s.drop_last()) + (s.last() as u32)) % 0x1_0000_0000) as u32 }
}

impl EmojiAtlas {
    pub open spec fn wf(&self) -> bool {
        &&& self.data@.len() == self.width * self.height * 4
        &&& self.width * self.height * 4 <= u32::MAX
        &&& self.padding == 2
        &&& keys_distinct(self.emoji@)
        &&& forall|i: int| 0 <= i < self.rows@.len() ==> (#[trigger] self.rows@[i]).y + self.rows@[i].height <= self.height
        &&& forall|i: int| 0 < i < self.rows@.len() ==> (#[trigger] self.rows@[i]).y == self.rows@[i - 1].y + self.rows@[i - 1].height
        &&& self.rows@.len() > 0 ==> self.rows@[0].y == 0
    }

    /// The cached emoji by their text.
    pub open spec fn cached(&self) -> Map<Seq<char>, EmojiInfo> {
        emoji_map(self.emoji@)
    }

    /// An empty atlas of the given size in pixels.
    pub fn new(width: u32, height: u32) -> (a: EmojiAtlas)
        requires
            width * height * 4 <= u32::MAX,
        ensures
            a.wf(),
            a.width == width,
            a.height == height,
            a.data@ == Seq::new((width * height * 4) as nat, |i: int| 0u8),
            a.cached() == Map::<Seq<char>, EmojiInfo>::empty(),
            a.rows@.len() == 0,
            !a.dirty,
    {
        let n: usize = (width * height * 4) as usize;
        let mut data: Vec<u8> = Vec::new();
        let mut i: usize = 0;
        while i < n
            invariant
                i <= n,
                data@ == Seq::new(i as nat, |j: int| 0u8),
            decreases n - i,
        {
            data.push(0);
            i += 1;
            proof {
                assert(data@ =~= Seq::new(i as nat, |j: int| 0u8));
            }
        }
        EmojiAtlas { data, width, height, emoji: Vec::new(), rows: Vec::new(), padding: 2, dirty: false }
    }

    /// The atlas size in pixels.
    pub fn size(&self) -> (s: (u32, u32))
        ensures
            s == (self.width, self.height),
    {
        (self.width, self.height)
    }

    /// The RGBA texture data.
    pub fn data(&self) -> (d: &[u8])
        ensures
            d@ == self.data@,
    {
        self.data.as_slice()
    }

    pub fn is_dirty(&self) -> (b: bool)
        ensures
            b == self.dirty,
    {
        self.dirty
    }

    /// The texture was uploaded.
    pub fn mark_clean(&mut self)
        ensures
            final(self).dirty == false,
            final(self).data == old(self).data,
            final(self).emoji == old(self).emoji,
            final(self).rows == old(self).rows,
            final(self).width == old(self).width,
            final(self).height == old(self).height,
            final(self).padding == old(self).padding,
    {
        self.dirty = false;
    }

    /// The placement of a cached emoji.
    pub fn get(&self, key: &EmojiKey) -> (r: Option<&EmojiInfo>)
        requires
            self.wf(),
        ensures
            match r {
                Some(info) => self.cached().dom().contains(key.emoji@) && self.cached()[key.emoji@] == *info,
                None => !self.cached().dom().contains(key.emoji@),
            },
    {
        let k = chars_of(key.emoji.as_str());
        let mut i: usize = 0;
        while i < self.emoji.len()
            invariant
                self.wf(),
                k@ == key.emoji@,
                i <= self.emoji@.len(),
                forall|j: int| 0 <= j < i ==> (#[trigger] self.emoji@[j]).0.emoji@ != key.emoji@,
            decreases self.emoji@.len() - i,
        {
            let e = chars_of(self.emoji[i].0.emoji.as_str());
            if chars_eq(e.as_slice(), k.as_slice()) {
                proof {
                    lemma_emoji_map_at(self.emoji@, i as int);
                }
                return Some(&self.emoji[i].1);
            }
            i += 1;
        }
        proof {
            lemma_emoji_map_dom(self.emoji@, key.emoji@);
        }
        None
    }

    /// Whether a character is drawn as a color emoji.
    pub fn is_emoji(c: char) -> (b: bool)
        ensures
            b == emoji_char(c),
    {
        let u = c as u32;
        (0x1F300 <= u && u <= 0x1F9FF)
            || (0x2600 <= u && u <= 0x26FF)
            || (0x2700 <= u && u <= 0x27BF)
            || (0x1F600 <= u && u <= 0x1F64F)
            || (0x1F680 <= u && u <= 0x1F6FF)
            || (0x1F1E0 <= u && u <= 0x1F1FF)
            || (0x231A <= u && u <= 0x231B)
            || (0x23E9 <= u && u <= 0x23F3)
            || (0x23F8 <= u && u <= 0x23FA)
            || (0x25AA <= u && u <= 0x25AB)
            || u == 0x25B6
            || u == 0x25C0
            || (0x25FB <= u && u <= 0x25FE)
            || (0x2614 <= u && u <= 0x2615)
            || (0x2648 <= u && u <= 0x2653)
            || u == 0x267F
            || u == 0x2693
            || u == 0x26A1
            || (0x26AA <= u && u <= 0x26AB)
            || (0x26BD <= u && u <= 0x26BE)
            || (0x26C4 <= u && u <= 0x26C5)
            || u == 0x26CE
            || u == 0x26D4
            || u == 0x26EA
            || (0x26F2 <= u && u <= 0x26F3)
            || u == 0x26F5
            || u == 0x26FA
            || u == 0x26FD
            || u == 0x2702
            || u == 0x2705
            || (0x2708 <= u && u <= 0x270D)
            || u == 0x270F
            || u == 0x2712
            || u == 0x2714
            || u == 0x2716
            || u == 0x271D
            || u == 0x2721
            || u == 0x2728
            || (0x2733 <= u && u <= 0x2734)
            || u == 0x2744
            || u == 0x2747
            || u == 0x274C
            || u == 0x274E
            || (0x2753 <= u && u <= 0x2755)
            || u == 0x2757
            || (0x2763 <= u && u <= 0x2764)
            || (0x2795 <= u && u <= 0x2797)
            || u == 0x27A1
            || u == 0x27B0
            || u == 0x27BF
            || (0x2934 <= u && u <= 0x2935)
            || (0x2B05 <= u && u <= 0x2B07)
            || (0x2B1B <= u && u <= 0x2B1C)
            || u == 0x2B50
            || u == 0x2B55
            || u == 0x3030
            || u == 0x303D
            || u == 0x3297
            || u == 0x3299
    }

    /// Whether a string starts with a color emoji.
    pub fn is_emoji_str(s: &str) -> (b: bool)
        ensures
            b == (s@.len() > 0 && emoji_char(s@[0])),
    {
        let cs = chars_of(s);
        if cs.len() == 0 {
            false
        } else {
            EmojiAtlas::is_emoji(cs[0])
        }
    }
}


/// Where the next new row starts: below the last row.
pub open spec fn next_row_y(rows: Seq<AtlasRow>) -> int {
    if rows.len() == 0 { 0 } else { rows.last().y + rows.last().height }
}

/// Packing a `w` by `h` box (each side padded by `pad`): the first row it
/// fits in takes it at its cursor; else a new row below the last one, when
/// the atlas is tall enough. Gives the position and the rows afterwards.
pub open spec fn alloc_result(rows: Seq<AtlasRow>, atlas_w: int, atlas_h: int, pad: int, w: int, h: int)
    -> (Option<(u32, u32)>, Seq<AtlasRow>)
{
    let pw = w + pad;
    let ph = h + pad;
    match first_fit(rows, pw, ph, atlas_w) {
        Some(i) => (Some((rows[i].x_cursor, rows[i].y)),
            rows.update(i, AtlasRow { x_cursor: (rows[i].x_cursor + pw) as u32, ..rows[i] })),
        None => {
            let y = next_row_y(rows);
            if y + ph > atlas_h {
                (None, rows)
            } else {
                (Some((0u32, y as u32)), rows.push(AtlasRow { y: y as u32, height: ph as u32, x_cursor: pw as u32 }))
            }
        },
    }
}

proof fn lemma_emoji_map_len(s: Seq<(EmojiKey, EmojiInfo)>)
    requires
        keys_distinct(s),
    ensures
        emoji_map(s).dom().finite(),
        emoji_map(s).dom().len() == s.len(),
    decreases s.len(),
{
    if s.len() > 0 {
        let t = s.drop_last();
        assert(keys_distinct(t)) by {
            assert forall|a: int, b: int| 0 <= a < t.len() && 0 <= b < t.len() && a != b implies t[a].0.emoji@ != t[b].0.emoji@ by {
                assert(t[a] == s[a] && t[b] == s[b]);
            }
        }
        lemma_emoji_map_len(t);
        lemma_emoji_map_dom(t, s.last().0.emoji@);
        if emoji_map(t).dom().contains(s.last().0.emoji@) {
            let i = choose|i: int| 0 <= i < t.len() && (#[trigger] t[i]).0.emoji@ == s.last().0.emoji@;
            assert(t[i] == s[i]);
            assert(false);
        }
    }
}

/// Red (`k` 0), green (1) or blue (2) of the placeholder color for `hash`.
pub open spec fn placeholder_channel(hash: u32, k: int) -> int {
    if k == 0 {
        ((hash >> 16u32) & 0xffu32) as int
    } else if k == 1 {
        ((hash >> 8u32) & 0xffu32) as int
    } else {
        (hash & 0xffu32) as int
    }
}

/// Byte `k` of an RGBA pixel `dy` rows into a placeholder `height` rows
/// high: each channel scaled by (10 height - 3 dy) / (10 height), alpha 255.
pub open spec fn placeholder_byte(hash: u32, k: int, dy: int, height: int) -> u8 {
    if k == 3 {
        255
    } else {
        (placeholder_channel(hash, k) * (10 * height - 3 * dy) / (10 * height)) as u8
    }
}

/// Whether byte `i` of an RGBA texture `aw` pixels wide lies in the box at
/// (`x`, `y`) that is `width` wide, taking its first `rows` rows whole and
/// the first `cols` pixels of the row after.
pub open spec fn in_painted(i: int, aw: int, x: int, y: int, width: int, rows: int, cols: int) -> bool {
    let p = i / 4;
    let px = p % aw;
    let py = p / aw;
    &&& x <= px
    &&& y <= py
    &&& ((py < y + rows && px < x + width) || (py == y + rows && px < x + cols))
}

proof fn lemma_pixel_bytes(i: int, aw: int, px: int, py: int)
    requires
        aw > 0,
        0 <= px < aw,
        0 <= py,
        0 <= i,
    ensures
        ((py * aw + px) * 4 <= i < (py * aw + px) * 4 + 4) <==> ((i / 4) % aw == px && (i / 4) / aw == py),
        (py * aw + px) * 4 <= i < (py * aw + px) * 4 + 4 ==> i % 4 == i - (py * aw + px) * 4,
{
    let q = i / 4;
    let p = py * aw + px;
    vstd::arithmetic::div_mod::lemma_fundamental_div_mod(q, aw);
    vstd::arithmetic::mul::lemma_mul_is_commutative(aw, py);
    if q == p {
        vstd::arithmetic::div_mod::lemma_fundamental_div_mod_converse(q, aw, py, px);
    }
}

proof fn lemma_pixel_bounds(i: int, aw: int, ah: int)
    requires
        aw > 0,
        0 <= i < aw * ah * 4,
    ensures
        0 <= (i / 4) % aw < aw,
        0 <= (i / 4) / aw < ah,
{
    let q = i / 4;
    assert(0 <= q < aw * ah);
    assert(0 <= q % aw < aw) by (nonlinear_arith) requires aw > 0;
    assert(0 <= q / aw < ah) by (nonlinear_arith) requires aw > 0, 0 <= q < aw * ah;
}

/// Paint the placeholder for an emoji: its box filled with a color taken
/// from the code points, darkening by up to 30% towards the bottom, opaque.
fn draw_placeholder(data: &mut Vec<u8>, atlas_w: u32, atlas_h: u32, x: u32, y: u32, width: u32, height: u32, emoji: &str)
    requires
        old(data)@.len() == atlas_w * atlas_h * 4,
        atlas_w * atlas_h * 4 <= u32::MAX,
    ensures
        final(data)@.len() == old(data)@.len(),
        forall|i: int| 0 <= i < old(data)@.len() ==> #[trigger] final(data)@[i] == (
            if in_painted(i, atlas_w as int, x as int, y as int, width as int, height as int, 0) {
                placeholder_byte(code_point_sum(emoji@), i % 4, (i / 4) / (atlas_w as int) - y, height as int)
            } else {
                old(data)@[i]
            }),
{
    let ghost orig = data@;
    let cs = chars_of(emoji);
    let mut hash: u32 = 0;
    let mut k: usize = 0;
    while k < cs.len()
        invariant
            k <= cs@.len(),
            cs@ == emoji@,
            hash == code_point_sum(cs@.take(k as int)),
        decreases cs@.len() - k,
    {
        proof {
            assert(cs@.take(k + 1).drop_last() =~= cs@.take(k as int));
        }
        hash = hash.wrapping_add(cs[k] as u32);
        k += 1;
    }
    proof {
        assert(cs@.take(k as int) =~= emoji@);
    }
    let r: u64 = ((hash >> 16) & 0xff) as u64;
    let g: u64 = ((hash >> 8) & 0xff) as u64;
    let b: u64 = (hash & 0xff) as u64;
    assert(r <= 255 && g <= 255 && b <= 255) by (bit_vector)
        requires r == ((hash >> 16) & 0xff) as u64, g == ((hash >> 8) & 0xff) as u64, b == (hash & 0xff) as u64;
    let ghost aw = atlas_w as int;
    let mut dy: u32 = 0;
    while dy < height
        invariant
            dy <= height,
            data@.len() == atlas_w * atlas_h * 4,
            orig.len() == data@.len(),
            atlas_w * atlas_h * 4 <= u32::MAX,
            aw == atlas_w,
            hash == code_point_sum(emoji@),
            r == placeholder_channel(hash, 0), g == placeholder_channel(hash, 1), b == placeholder_channel(hash, 2),
            r <= 255, g <= 255, b <= 255,
            forall|i: int| 0 <= i < orig.len() ==> #[trigger] data@[i] == (
                if in_painted(i, aw, x as int, y as int, width as int, dy as int, 0) {
                    placeholder_byte(hash, i % 4, (i / 4) / aw - y, height as int)
                } else {
                    orig[i]
                }),
        decreases height - dy,
    {
        let mut dx: u32 = 0;
        while dx < width
            invariant
                dx <= width,
                data@.len() == atlas_w * atlas_h * 4,
                orig.len() == data@.len(),
                atlas_w * atlas_h * 4 <= u32::MAX,
                aw == atlas_w,
                r == placeholder_channel(hash, 0), g == placeholder_channel(hash, 1), b == placeholder_channel(hash, 2),
                r <= 255, g <= 255, b <= 255,
                dy < height,
                forall|i: int| 0 <= i < orig.len() ==> #[trigger] data@[i] == (
                    if in_painted(i, aw, x as int, y as int, width as int, dy as int, dx as int) {
                        placeholder_byte(hash, i % 4, (i / 4) / aw - y, height as int)
                    } else {
                        orig[i]
                    }),
            decreases width - dx,
        {
            let ghost prev = data@;
            let px: u64 = x as u64 + dx as u64;
            let py: u64 = y as u64 + dy as u64;
            if px < atlas_w as u64 && py < atlas_h as u64 {
                assert(py * atlas_w + px < atlas_w * atlas_h) by (nonlinear_arith)
                    requires px < atlas_w, py < atlas_h;
                let idx: usize = ((py * atlas_w as u64 + px) * 4) as usize;
                if idx + 3 < data.len() {
                    let den: u64 = 10 * height as u64;
                    let num: u64 = 10 * height as u64 - 3 * dy as u64;
                    assert(r * num <= 255 * 42949672950 && g * num <= 255 * 42949672950 && b * num <= 255 * 42949672950)
                        by (nonlinear_arith)
                        requires r <= 255, g <= 255, b <= 255, num <= 42949672950;
                    assert((r * num) as int / (den as int) <= 255 && (g * num) as int / (den as int) <= 255
                        && (b * num) as int / (den as int) <= 255) by (nonlinear_arith)
                        requires r <= 255, g <= 255, b <= 255, num <= den, den > 0;
                    data.set(idx, (r * num / den) as u8);
                    data.set(idx + 1, (g * num / den) as u8);
                    data.set(idx + 2, (b * num / den) as u8);
                    data.set(idx + 3, 255);
                    proof {
                        assert forall|i: int| 0 <= i < orig.len() implies #[trigger] data@[i] == (
                            if in_painted(i, aw, x as int, y as int, width as int, dy as int, dx + 1) {
                                placeholder_byte(hash, i % 4, (i / 4) / aw - y, height as int)
                            } else {
                                orig[i]
                            }) by {
                            lemma_pixel_bytes(i, aw, px as int, py as int);
                            lemma_pixel_bounds(i, aw, atlas_h as int);
                            if idx <= i < idx + 4 {
                                assert(in_painted(i, aw, x as int, y as int, width as int, dy as int, dx + 1));
                            } else {
                                assert(data@[i] == prev[i]);
                            }
                        }
                    }
                } else {
                    proof {
                        assert(false);
                    }
                }
            } else {
                proof {
                    assert forall|i: int| 0 <= i < orig.len() implies #[trigger] data@[i] == (
                        if in_painted(i, aw, x as int, y as int, width as int, dy as int, dx + 1) {
                            placeholder_byte(hash, i % 4, (i / 4) / aw - y, height as int)
                        } else {
                            orig[i]
                        }) by {
                        lemma_pixel_bounds(i, aw, atlas_h as int);
                        assert(data@[i] == prev[i]);
                    }
                }
            }
            dx += 1;
        }
        proof {
            assert forall|i: int| 0 <= i < orig.len() implies #[trigger] data@[i] == (
                if in_painted(i, aw, x as int, y as int, width as int, dy + 1, 0) {
                    placeholder_byte(hash, i % 4, (i / 4) / aw - y, height as int)
                } else {
                    orig[i]
                }) by {
                assert(in_painted(i, aw, x as int, y as int, width as int, dy as int, width as int)
                    == in_painted(i, aw, x as int, y as int, width as int, dy + 1, 0));
            }
        }
        dy += 1;
    }
}

impl EmojiAtlas {
    /// Reserve a `width` by `height` box in the atlas (see `alloc_result`).
    pub fn allocate(&mut self, width: u32, height: u32) -> (r: Option<(u32, u32)>)
        requires
            old(self).wf(),
            width + 2 <= u32::MAX,
            height + 2 <= u32::MAX,
        ensures
            final(self).wf(),
            (r, final(self).rows@) == alloc_result(old(self).rows@, old(self).width as int, old(self).height as int,
                old(self).padding as int, width as int, height as int),
            final(self).data == old(self).data,
            final(self).emoji == old(self).emoji,
            final(self).width == old(self).width,
            final(self).height == old(self).height,
            final(self).padding == old(self).padding,
            final(self).dirty == old(self).dirty,
    {
        let pw: u64 = width as u64 + self.padding as u64;
        let ph: u64 = height as u64 + self.padding as u64;
        let mut i: usize = 0;
        while i < self.rows.len()
            invariant
                *self == *old(self),
                self.wf(),
                pw == width + self.padding,
                ph == height + self.padding,
                i <= self.rows@.len(),
                forall|j: int| 0 <= j < i ==> !(#[trigger] self.rows@[j].height >= ph && self.rows@[j].x_cursor + pw <= self.width),
            decreases self.rows@.len() - i,
        {
            let row = self.rows[i];
            if row.height as u64 >= ph && row.x_cursor as u64 + pw <= self.width as u64 {
                proof {
                    lemma_first_fit(self.rows@, pw as int, ph as int, self.width as int, i as int);
                }
                let x = row.x_cursor;
                self.rows.set(i, AtlasRow { x_cursor: (row.x_cursor as u64 + pw) as u32, ..row });
                return Some((x, row.y));
            }
            i += 1;
        }
        proof {
            lemma_first_fit(self.rows@, pw as int, ph as int, self.width as int, self.rows@.len() as int);
        }
        let n = self.rows.len();
        let y: u64 = if n == 0 { 0 } else { self.rows[n - 1].y as u64 + self.rows[n - 1].height as u64 };
        if y + ph > self.height as u64 {
            return None;
        }
        self.rows.push(AtlasRow { y: y as u32, height: ph as u32, x_cursor: pw as u32 });
        Some((0, y as u32))
    }

    /// Cache an emoji drawn into a box two cells wide and one cell high,
    /// giving its placement; an emoji already cached keeps its placement.
    /// `None` when the atlas has no room for it.
    pub fn cache(&mut self, key: EmojiKey, cell_width: u32, cell_height: u32) -> (r: Option<EmojiInfo>)
        requires
            old(self).wf(),
            cell_width <= 0x7fff_fffe,
            cell_height <= u32::MAX - 2,
        ensures
            final(self).wf(),
            final(self).width == old(self).width,
            final(self).height == old(self).height,
            old(self).cached().dom().contains(key.emoji@) ==> {
                &&& r == Some(old(self).cached()[key.emoji@])
                &&& *final(self) == *old(self)
            },
            !old(self).cached().dom().contains(key.emoji@) ==> {
                let (pos, rows) = alloc_result(old(self).rows@, old(self).width as int, old(self).height as int,
                    old(self).padding as int, 2 * cell_width, cell_height as int);
                &&& final(self).rows@ == rows
                &&& match pos {
                    None => r.is_none() && final(self).cached() == old(self).cached()
                        && final(self).dirty == old(self).dirty,
                    Some(p) => {
                        let info = EmojiInfo { atlas_x: p.0, atlas_y: p.1, width: (2 * cell_width) as u32, height: cell_height };
                        &&& r == Some(info)
                        &&& final(self).cached() == old(self).cached().insert(key.emoji@, info)
                        &&& final(self).dirty
                    },
                }
            },
    {
        match self.get(&key) {
            Some(info) => {
                return Some(*info);
            },
            None => {},
        }
        let width = cell_width * 2;
        let height = cell_height;
        let pos = self.allocate(width, height);
        match pos {
            None => None,
            Some((x, y)) => {
                let w = self.width;
                let h = self.height;
                draw_placeholder(&mut self.data, w, h, x, y, width, height, key.emoji.as_str());
                let info = EmojiInfo { atlas_x: x, atlas_y: y, width, height };
                proof {
                    lemma_emoji_map_dom(self.emoji@, key.emoji@);
                }
                self.emoji.push((key, info));
                proof {
                    assert(self.emoji@.drop_last() =~= old(self).emoji@);
                }
                self.dirty = true;
                Some(info)
            },
        }
    }

    /// Empty the atlas.
    pub fn clear(&mut self)
        requires
            old(self).wf(),
        ensures
            final(self).wf(),
            final(self).width == old(self).width,
            final(self).height == old(self).height,
            final(self).data@ == Seq::new(old(self).data@.len(), |i: int| 0u8),
            final(self).cached() == Map::<Seq<char>, EmojiInfo>::empty(),
            final(self).rows@.len() == 0,
            final(self).dirty,
    {
        let n = self.data.len();
        let mut i: usize = 0;
        while i < n
            invariant
                n == self.data@.len(),
                n == old(self).data@.len(),
                self.width == old(self).width,
                self.height == old(self).height,
                self.padding == old(self).padding,
                self.emoji == old(self).emoji,
                self.rows == old(self).rows,
                i <= n,
                forall|j: int| 0 <= j < i ==> self.data@[j] == 0u8,
            decreases n - i,
        {
            self.data.set(i, 0);
            i += 1;
        }
        proof {
            assert(self.data@ =~= Seq::new(n as nat, |i: int| 0u8));
        }
        self.emoji = Vec::new();
        self.rows = Vec::new();
        self.dirty = true;
    }

    /// How many emoji are cached.
    pub fn emoji_count(&self) -> (n: usize)
        requires
            self.wf(),
        ensures
            n == self.cached().dom().len(),
    {
        proof {
            lemma_emoji_map_len(self.emoji@);
        }
        self.emoji.len()
    }
}

} // verus!

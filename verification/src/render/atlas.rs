//! Glyph atlas: rasterized glyphs packed in rows of one grayscale texture,
//! with the least recently used row given up when the atlas is full.

use vstd::prelude::*;

verus! {

/// Key for looking up a cached glyph.
#[derive(Debug, Clone, Copy, PartialEq, Eq, Hash, Structural)]
pub struct GlyphKey {
    pub character: char,
    /// Style bits: 1 bold, 2 italic.
    pub flags: u8,
}

impl GlyphKey {
    pub fn new(c: char, flags: u8) -> (k: GlyphKey)
        ensures
            k == (GlyphKey { character: c, flags }),
    {
        GlyphKey { character: c, flags }
    }

    pub fn regular(c: char) -> (k: GlyphKey)
        ensures
            k == (GlyphKey { character: c, flags: 0 }),
    {
        GlyphKey::new(c, 0)
    }

    pub fn bold(c: char) -> (k: GlyphKey)
        ensures
            k == (GlyphKey { character: c, flags: 1 }),
    {
        GlyphKey::new(c, 1)
    }

    pub fn italic(c: char) -> (k: GlyphKey)
        ensures
            k == (GlyphKey { character: c, flags: 2 }),
    {
        GlyphKey::new(c, 2)
    }
}

/// Where a cached glyph sits in the atlas (its font metrics stay with the
/// renderer).
#[derive(Debug, Clone, Copy, PartialEq, Eq, Structural)]
pub struct GlyphInfo {
    pub atlas_x: u32,
    pub atlas_y: u32,
    pub width: u32,
    pub height: u32,
}

/// A rasterized glyph: its bitmap, `width` by `height` coverage bytes.
#[derive(Debug, Clone)]
pub struct RasterizedGlyph {
    pub width: u32,
    pub height: u32,
    pub bitmap: Vec<u8>,
}

/// When a glyph was last used, for least-recently-used eviction.
#[derive(Debug, Clone, Copy, PartialEq, Eq, Structural)]
pub struct LruEntry {
    pub key: GlyphKey,
    /// The row the glyph is stored in.
    pub row_idx: usize,
    /// The frame it was last used in.
    pub last_access: u64,
}

/// A packing row of the atlas.
#[derive(Debug, Clone)]
pub struct AtlasRow {
    pub y: u32,
    pub height: u32,
    pub x_cursor: u32,
    /// The glyphs stored in this row.
    pub glyph_keys: Vec<GlyphKey>,
}

/// A row's placement, without its glyph list.
pub struct RowShape {
    pub y: u32,
    pub height: u32,
    pub x_cursor: u32,
}

pub open spec fn shape(r: AtlasRow) -> RowShape {
    RowShape { y: r.y, height: r.height, x_cursor: r.x_cursor }
}

pub open spec fn shapes(rows: Seq<AtlasRow>) -> Seq<RowShape> {
    rows.map_values(|r: AtlasRow| shape(r))
}

/// `data` with `width` bytes of `bitmap` from `src` copied to `dst`, or
/// `data` unchanged when either range runs past its end.
pub open spec fn copy_run(data: Seq<u8>, dst: int, bitmap: Seq<u8>, src: int, width: int) -> Seq<u8> {
    if dst + width <= data.len() && src + width <= bitmap.len() {
        Seq::new(data.len(), |i: int| if dst <= i < dst + width { bitmap[src + i - dst] } else { data[i] })
    } else {
        data
    }
}

/// The texture after copying the first `n` rows of a `width`-wide bitmap to
/// (`x`, `y`) in a texture `tex_width` bytes wide, one row after the other.
pub open spec fn blitted(data: Seq<u8>, tex_width: int, x: int, y: int, bitmap: Seq<u8>, width: int, n: nat) -> Seq<u8>
    decreases n,
{
    if n == 0 {
        data
    } else {
        let r = n - 1;
        copy_run(blitted(data, tex_width, x, y, bitmap, width, (n - 1) as nat), (y + r) * tex_width + x, bitmap, r * width, width)
    }
}

proof fn lemma_blitted_len(data: Seq<u8>, tex_width: int, x: int, y: int, bitmap: Seq<u8>, width: int, n: nat)
    ensures
        blitted(data, tex_width, x, y, bitmap, width, n).len() == data.len(),
    decreases n,
{
    if n > 0 {
        lemma_blitted_len(data, tex_width, x, y, bitmap, width, (n - 1) as nat);
    }
}

/// The index of the first row a padded box of `pw` by `ph` fits in.
pub open spec fn first_fit(rows: Seq<RowShape>, pw: int, ph: int, width: int) -> Option<int>
    decreases rows.len(),
{
    if rows.len() == 0 {
        None
    } else {
        match first_fit(rows.drop_last(), pw, ph, width) {
            Some(i) => Some(i),
            None => if rows.last().height >= ph && rows.last().x_cursor + pw <= width {
                Some(rows.len() - 1)
            } else {
                None
            },
        }
    }
}

proof fn lemma_first_fit(rows: Seq<RowShape>, pw: int, ph: int, width: int, i: int)
    requires
        0 <= i <= rows.len(),
        forall|j: int| 0 <= j < i ==> !(#[trigger] rows[j].height >= ph && rows[j].x_cursor + pw <= width),
    ensures
        i < rows.len() && rows[i].height >= ph && rows[i].x_cursor + pw <= width ==> first_fit(rows, pw, ph, width) == Some(i),
        i == rows.len() ==> first_fit(rows, pw, ph, width).is_none(),
    decreases rows.len(),
{
    if rows.len() > 0 {
        let t = rows.drop_last();
        assert forall|j: int| 0 <= j < i && j < t.len() implies !(#[trigger] t[j].height >= ph && t[j].x_cursor + pw <= width) by {
            assert(t[j] == rows[j]);
        }
        if i < rows.len() - 1 {
            lemma_first_fit(t, pw, ph, width, i);
            assert(t[i] == rows[i]);
        } else {
            lemma_first_fit(t, pw, ph, width, t.len() as int);
        }
    }
}

/// The cached glyphs as a map, later entries over earlier.
pub open spec fn glyph_map(s: Seq<(GlyphKey, GlyphInfo)>) -> Map<GlyphKey, GlyphInfo>
    decreases s.len(),
{
    if s.len() == 0 {
        Map::empty()
    } else {
        glyph_map(s.drop_last()).insert(s.last().0, s.last().1)
    }
}

pub open spec fn glyph_keys_distinct(s: Seq<(GlyphKey, GlyphInfo)>) -> bool {
    forall|i: int, j: int| 0 <= i < s.len() && 0 <= j < s.len() && i != j ==> s[i].0 != s[j].0
}

proof fn lemma_distinct_drop_last(s: Seq<(GlyphKey, GlyphInfo)>)
    requires
        glyph_keys_distinct(s),
        s.len() > 0,
    ensures
        glyph_keys_distinct(s.drop_last()),
{
    let t = s.drop_last();
    assert forall|a: int, b: int| 0 <= a < t.len() && 0 <= b < t.len() && a != b implies t[a].0 != t[b].0 by {
        assert(t[a] == s[a] && t[b] == s[b]);
    }
}

proof fn lemma_glyph_map_dom(s: Seq<(GlyphKey, GlyphInfo)>, k: GlyphKey)
    ensures
        glyph_map(s).dom().contains(k) <==> exists|i: int| 0 <= i < s.len() && (#[trigger] s[i]).0 == k,
    decreases s.len(),
{
    if s.len() > 0 {
        lemma_glyph_map_dom(s.drop_last(), k);
        if glyph_map(s).dom().contains(k) && s.last().0 != k {
            let i = choose|i: int| 0 <= i < s.len() - 1 && (#[trigger] s.drop_last()[i]).0 == k;
            assert(s[i] == s.drop_last()[i]);
        }
        if exists|i: int| 0 <= i < s.len() && (#[trigger] s[i]).0 == k {
            let i = choose|i: int| 0 <= i < s.len() && (#[trigger] s[i]).0 == k;
            if i < s.len() - 1 {
                assert(s.drop_last()[i] == s[i]);
            }
        }
    }
}

proof fn lemma_glyph_map_at(s: Seq<(GlyphKey, GlyphInfo)>, i: int)
    requires
        glyph_keys_distinct(s),
        0 <= i < s.len(),
    ensures
        glyph_map(s).dom().contains(s[i].0),
        glyph_map(s)[s[i].0] == s[i].1,
    decreases s.len(),
{
    if i < s.len() - 1 {
        let t = s.drop_last();
        assert(t[i] == s[i]);
        lemma_distinct_drop_last(s);
        lemma_glyph_map_at(t, i);
        assert(s.last() == s[s.len() - 1]);
    }
}

proof fn lemma_glyph_map_remove(s: Seq<(GlyphKey, GlyphInfo)>, i: int)
    requires
        glyph_keys_distinct(s),
        0 <= i < s.len(),
    ensures
        glyph_keys_distinct(s.remove(i)),
        glyph_map(s.remove(i)) == glyph_map(s).remove(s[i].0),
    decreases s.len(),
{
    let r = s.remove(i);
    assert(glyph_keys_distinct(r)) by {
        assert forall|a: int, b: int| 0 <= a < r.len() && 0 <= b < r.len() && a != b implies r[a].0 != r[b].0 by {
            let sa = if a < i { a } else { a + 1 };
            let sb = if b < i { b } else { b + 1 };
            assert(r[a] == s[sa] && r[b] == s[sb]);
        }
    }
    let t = s.drop_last();
    if i == s.len() - 1 {
        assert(r =~= t);
        lemma_distinct_drop_last(s);
        lemma_glyph_map_dom(t, s[i].0);
        if glyph_map(t).dom().contains(s[i].0) {
            let j = choose|j: int| 0 <= j < t.len() && (#[trigger] t[j]).0 == s[i].0;
            assert(t[j] == s[j]);
        }
        assert(glyph_map(r) =~= glyph_map(s).remove(s[i].0));
    } else {
        lemma_distinct_drop_last(s);
        assert(t[i] == s[i]);
        lemma_glyph_map_remove(t, i);
        assert(r.drop_last() =~= t.remove(i));
        assert(r.last() == s.last());
        assert(s.last().0 != s[i].0);
        assert(glyph_map(r) =~= glyph_map(s).remove(s[i].0));
    }
}

/// The most recent use of any glyph stored in `row` (0 when it holds none).
pub open spec fn row_recent(lru: Seq<LruEntry>, row: int) -> u64
    decreases lru.len(),
{
    if lru.len() == 0 {
        0
    } else {
        let rest = row_recent(lru.drop_last(), row);
        if lru.last().row_idx == row && lru.last().last_access > rest { lru.last().last_access } else { rest }
    }
}

/// The row to evict among the first `k`: the first whose most recent use is
/// the oldest; with its recency (the largest reading when none is below it).
pub open spec fn oldest_row(lru: Seq<LruEntry>, k: int) -> (u64, int)
    decreases k,
{
    if k <= 0 {
        (u64::MAX, 0)
    } else {
        let (best, idx) = oldest_row(lru, k - 1);
        if row_recent(lru, k - 1) < best { (row_recent(lru, k - 1), k - 1) } else { (best, idx) }
    }
}

proof fn lemma_oldest_row_range(lru: Seq<LruEntry>, k: int)
    requires
        k > 0,
    ensures
        0 <= oldest_row(lru, k).1 < k,
    decreases k,
{
    if k > 1 {
        lemma_oldest_row_range(lru, k - 1);
    } else {
        assert(oldest_row(lru, 0) == (u64::MAX, 0int));
    }
}

/// The glyph map without the given keys.
pub open spec fn without_keys(m: Map<GlyphKey, GlyphInfo>, keys: Seq<GlyphKey>) -> Map<GlyphKey, GlyphInfo> {
    m.remove_keys(keys.to_set())
}

/// The usage entry of a key, the first one, if any.
pub open spec fn lru_index(lru: Seq<LruEntry>, key: GlyphKey) -> Option<int>
    decreases lru.len(),
{
    if lru.len() == 0 {
        None
    } else {
        match lru_index(lru.drop_last(), key) {
            Some(i) => Some(i),
            None => if lru.last().key == key { Some(lru.len() - 1) } else { None },
        }
    }
}

/// The usage list after a glyph is used in `frame`: its entry (the first
/// one) takes the frame, or a new entry records it with its row.
pub open spec fn touched(lru: Seq<LruEntry>, key: GlyphKey, row_idx: usize, frame: u64) -> Seq<LruEntry> {
    match lru_index(lru, key) {
        Some(i) => lru.update(i, LruEntry { last_access: frame, ..lru[i] }),
        None => lru.push(LruEntry { key, row_idx, last_access: frame }),
    }
}

/// The usage list with a glyph's entry (if any) taking the frame.
pub open spec fn refreshed(lru: Seq<LruEntry>, key: GlyphKey, frame: u64) -> Seq<LruEntry> {
    match lru_index(lru, key) {
        Some(i) => lru.update(i, LruEntry { last_access: frame, ..lru[i] }),
        None => lru,
    }
}

proof fn lemma_lru_index(lru: Seq<LruEntry>, key: GlyphKey, i: int)
    requires
        0 <= i <= lru.len(),
        forall|j: int| 0 <= j < i ==> (#[trigger] lru[j]).key != key,
    ensures
        i < lru.len() && lru[i].key == key ==> lru_index(lru, key) == Some(i),
        i == lru.len() ==> lru_index(lru, key).is_none(),
    decreases lru.len(),
{
    if lru.len() > 0 {
        let t = lru.drop_last();
        assert forall|j: int| 0 <= j < i && j < t.len() implies (#[trigger] t[j]).key != key by {
            assert(t[j] == lru[j]);
        }
        if i < lru.len() - 1 {
            lemma_lru_index(t, key, i);
            assert(t[i] == lru[i]);
        } else {
            lemma_lru_index(t, key, t.len() as int);
        }
    }
}

proof fn lemma_row_recent_prefix(lru: Seq<LruEntry>, row: int, i: int)
    requires
        0 <= i < lru.len(),
    ensures
        row_recent(lru.subrange(0, i + 1), row) == (if lru[i].row_idx == row
            && lru[i].last_access > row_recent(lru.subrange(0, i), row) { lru[i].last_access } else {
            row_recent(lru.subrange(0, i), row) }),
{
    assert(lru.subrange(0, i + 1).drop_last() =~= lru.subrange(0, i));
}

/// Glyph texture atlas with least-recently-used eviction.
pub struct Atlas {
    /// Grayscale texture data, one byte per pixel.
    pub data: Vec<u8>,
    pub width: u32,
    pub height: u32,
    /// Cached glyphs and their placements.
    pub glyphs: Vec<(GlyphKey, GlyphInfo)>,
    /// Packing rows, top to bottom.
    pub rows: Vec<AtlasRow>,
    /// Row being packed into.
    pub current_row: usize,
    /// Padding between glyphs.
    pub padding: u32,
    /// The texture changed since it was last uploaded.
    pub dirty: bool,
    /// Usage of each stored glyph.
    pub lru: Vec<LruEntry>,
    /// Current frame number.
    pub frame: u64,
    /// Rows expected to fit, at about 24 pixels each.
    pub max_rows: usize,
}

/// Where the next new row starts: below the last row.
pub open spec fn next_row_y(rows: Seq<RowShape>) -> int {
    if rows.len() == 0 { 0 } else { rows.last().y + rows.last().height }
}

impl Atlas {
    pub open spec fn wf(&self) -> bool {
        &&& self.data@.len() == self.width * self.height
        &&& self.width * self.height <= u32::MAX
        &&& self.padding == 1
        &&& glyph_keys_distinct(self.glyphs@)
        &&& forall|i: int| 0 <= i < self.rows@.len() ==> (#[trigger] self.rows@[i]).y + self.rows@[i].height <= self.height
    }

    /// The cached glyphs.
    pub open spec fn cached(&self) -> Map<GlyphKey, GlyphInfo> {
        glyph_map(self.glyphs@)
    }

    /// An empty atlas of the given size in pixels.
    pub fn new(width: u32, height: u32) -> (a: Atlas)
        requires
            width * height <= u32::MAX,
        ensures
            a.wf(),
            a.width == width,
            a.height == height,
            a.data@ == Seq::new((width * height) as nat, |i: int| 0u8),
            a.cached() == Map::<GlyphKey, GlyphInfo>::empty(),
            a.rows@.len() == 0,
            a.lru@.len() == 0,
            a.frame == 0,
            a.max_rows == height / 24,
            !a.dirty,
    {
        let n: usize = (width * height) as usize;
        let mut data: Vec<u8> = Vec::new();
        let mut i: usize = 0;
        while i < n
            invariant
                i <= n,
                data@ == Seq::new(i as nat, |j: int| 0u8),
            decreases n - i,
        {
            data.push(0);
            i += 1;
            proof {
                assert(data@ =~= Seq::new(i as nat, |j: int| 0u8));
            }
        }
        Atlas {
            data,
            width,
            height,
            glyphs: Vec::new(),
            rows: Vec::new(),
            current_row: 0,
            padding: 1,
            dirty: false,
            lru: Vec::new(),
            frame: 0,
            max_rows: (height / 24) as usize,
        }
    }

    /// Advance the frame counter (once a frame).
    pub fn advance_frame(&mut self)
        requires
            old(self).frame < u64::MAX,
        ensures
            *final(self) == (Atlas { frame: (old(self).frame + 1) as u64, ..*old(self) }),
    {
        self.frame = self.frame + 1;
    }

    /// Record a use of a glyph stored in `row_idx` in the current frame.
    pub fn touch(&mut self, key: GlyphKey, row_idx: usize)
        ensures
            final(self).lru@ == touched(old(self).lru@, key, row_idx, old(self).frame),
            *final(self) == (Atlas { lru: final(self).lru, ..*old(self) }),
    {
        let mut i: usize = 0;
        while i < self.lru.len()
            invariant
                *self == *old(self),
                i <= self.lru@.len(),
                forall|j: int| 0 <= j < i ==> (#[trigger] self.lru@[j]).key != key,
            decreases self.lru@.len() - i,
        {
            if self.lru[i].key == key {
                proof {
                    lemma_lru_index(self.lru@, key, i as int);
                }
                let e = self.lru[i];
                let frame = self.frame;
                self.lru.set(i, LruEntry { last_access: frame, ..e });
                return;
            }
            i += 1;
        }
        proof {
            lemma_lru_index(self.lru@, key, self.lru@.len() as int);
        }
        let frame = self.frame;
        self.lru.push(LruEntry { key, row_idx, last_access: frame });
    }

    /// A glyph's entry (if any) takes the current frame.
    fn refresh(&mut self, key: GlyphKey)
        ensures
            final(self).lru@ == refreshed(old(self).lru@, key, old(self).frame),
            *final(self) == (Atlas { lru: final(self).lru, ..*old(self) }),
    {
        let mut i: usize = 0;
        while i < self.lru.len()
            invariant
                *self == *old(self),
                i <= self.lru@.len(),
                forall|j: int| 0 <= j < i ==> (#[trigger] self.lru@[j]).key != key,
            decreases self.lru@.len() - i,
        {
            if self.lru[i].key == key {
                proof {
                    lemma_lru_index(self.lru@, key, i as int);
                }
                let e = self.lru[i];
                let frame = self.frame;
                self.lru.set(i, LruEntry { last_access: frame, ..e });
                return;
            }
            i += 1;
        }
        proof {
            lemma_lru_index(self.lru@, key, self.lru@.len() as int);
        }
    }

    /// The most recent use of a glyph in `row`.
    fn row_recency(&self, row: usize) -> (r: u64)
        ensures
            r == row_recent(self.lru@, row as int),
    {
        let mut best: u64 = 0;
        let mut i: usize = 0;
        while i < self.lru.len()
            invariant
                i <= self.lru@.len(),
                best == row_recent(self.lru@.subrange(0, i as int), row as int),
            decreases self.lru@.len() - i,
        {
            proof {
                lemma_row_recent_prefix(self.lru@, row as int, i as int);
            }
            let e = self.lru[i];
            if e.row_idx == row && e.last_access > best {
                best = e.last_access;
            }
            i += 1;
        }
        proof {
            assert(self.lru@.subrange(0, self.lru@.len() as int) =~= self.lru@);
        }
        best
    }

    /// Remove one glyph from the cache.
    fn forget_glyph(&mut self, key: GlyphKey)
        requires
            glyph_keys_distinct(old(self).glyphs@),
        ensures
            glyph_keys_distinct(final(self).glyphs@),
            glyph_map(final(self).glyphs@) == glyph_map(old(self).glyphs@).remove(key),
            *final(self) == (Atlas { glyphs: final(self).glyphs, ..*old(self) }),
    {
        let mut i: usize = 0;
        while i < self.glyphs.len()
            invariant
                *self == *old(self),
                glyph_keys_distinct(self.glyphs@),
                i <= self.glyphs@.len(),
                forall|j: int| 0 <= j < i ==> (#[trigger] self.glyphs@[j]).0 != key,
            decreases self.glyphs@.len() - i,
        {
            if self.glyphs[i].0 == key {
                proof {
                    lemma_glyph_map_remove(self.glyphs@, i as int);
                }
                self.glyphs.remove(i);
                return;
            }
            i += 1;
        }
        proof {
            lemma_glyph_map_dom(self.glyphs@, key);
            assert(glyph_map(self.glyphs@) =~= glyph_map(self.glyphs@).remove(key));
        }
    }

    /// Give up the least recently used row: its glyphs leave the cache and
    /// the usage list, its pixels are cleared and it is empty again. Returns
    /// its index; `None` when there are no rows.
    pub fn evict_lru_row(&mut self) -> (r: Option<usize>)
        requires
            old(self).wf(),
        ensures
            final(self).wf(),
            old(self).rows@.len() == 0 ==> r.is_none() && *final(self) == *old(self),
            old(self).rows@.len() > 0 ==> {
                let idx = oldest_row(old(self).lru@, old(self).rows@.len() as int).1;
                let row = old(self).rows@[idx];
                &&& 0 <= idx < old(self).rows@.len()
                &&& r == Some(idx as usize)
                &&& final(self).cached() == without_keys(old(self).cached(), row.glyph_keys@)
                &&& final(self).lru@ == old(self).lru@.filter(|e: LruEntry| e.row_idx != idx)
                &&& final(self).rows@.len() == old(self).rows@.len()
                &&& forall|i: int| 0 <= i < final(self).rows@.len() && i != idx ==> #[trigger] final(self).rows@[i] == old(self).rows@[i]
                &&& final(self).rows@[idx].y == row.y
                &&& final(self).rows@[idx].height == row.height
                &&& final(self).rows@[idx].x_cursor == 0
                &&& final(self).rows@[idx].glyph_keys@.len() == 0
                &&& final(self).data@.len() == old(self).data@.len()
                &&& forall|p: int| 0 <= p < final(self).data@.len() ==> #[trigger] final(self).data@[p] == (
                    if row.y * old(self).width <= p < (row.y + row.height) * old(self).width { 0u8 } else { old(self).data@[p] })
                &&& final(self).dirty
            },
            final(self).width == old(self).width,
            final(self).height == old(self).height,
            final(self).frame == old(self).frame,
            final(self).max_rows == old(self).max_rows,
            final(self).current_row == old(self).current_row,
    {
        let n = self.rows.len();
        if n == 0 {
            return None;
        }
        let mut oldest_frame: u64 = u64::MAX;
        let mut oldest_idx: usize = 0;
        let mut k: usize = 0;
        while k < n
            invariant
                *self == *old(self),
                n == self.rows@.len(),
                k <= n,
                (oldest_frame, oldest_idx as int) == oldest_row(self.lru@, k as int),
                oldest_idx < n,
            decreases n - k,
        {
            let recent = self.row_recency(k);
            if recent < oldest_frame {
                oldest_frame = recent;
                oldest_idx = k;
            }
            k += 1;
        }
        let idx = oldest_idx;
        proof {
            lemma_oldest_row_range(self.lru@, n as int);
        }
        let keys = self.rows[idx].glyph_keys.clone();
        let ghost keys_view = old(self).rows@[idx as int].glyph_keys@;
        proof {
            assert(keys@ == keys_view);
        }
        let mut j: usize = 0;
        while j < keys.len()
            invariant
                self.wf(),
                j <= keys@.len(),
                keys@ == keys_view,
                self.cached() == without_keys(old(self).cached(), keys_view.subrange(0, j as int)),
                *self == (Atlas { glyphs: self.glyphs, ..*old(self) }),
            decreases keys@.len() - j,
        {
            self.forget_glyph(keys[j]);
            j += 1;
            proof {
                assert(keys_view.subrange(0, j as int).to_set() =~= keys_view.subrange(0, j - 1).to_set().insert(keys_view[j - 1])) by {
                    assert(keys_view.subrange(0, j as int) =~= keys_view.subrange(0, j - 1).push(keys_view[j - 1]));
                    keys_view.subrange(0, j - 1).lemma_push_to_set_commute(keys_view[j - 1]);
                }
                assert(self.cached() =~= without_keys(old(self).cached(), keys_view.subrange(0, j as int)));
            }
        }
        proof {
            assert(keys_view.subrange(0, keys_view.len() as int) =~= keys_view);
        }
        self.retain_lru(idx);
        self.clear_rows_of(idx);
        let row = &self.rows[idx];
        let cleared = AtlasRow { y: row.y, height: row.height, x_cursor: 0, glyph_keys: Vec::new() };
        self.rows.set(idx, cleared);
        self.dirty = true;
        Some(idx)
    }

    /// Drop the usage entries of glyphs stored in row `idx`.
    fn retain_lru(&mut self, idx: usize)
        ensures
            final(self).lru@ == old(self).lru@.filter(|e: LruEntry| e.row_idx != idx),
            *final(self) == (Atlas { lru: final(self).lru, ..*old(self) }),
    {
        let mut kept: Vec<LruEntry> = Vec::new();
        let mut i: usize = 0;
        let ghost pred = |e: LruEntry| e.row_idx != idx;
        while i < self.lru.len()
            invariant
                *self == *old(self),
                i <= self.lru@.len(),
                kept@ == self.lru@.subrange(0, i as int).filter(pred),
                pred == (|e: LruEntry| e.row_idx != idx),
            decreases self.lru@.len() - i,
        {
            let e = self.lru[i];
            proof {
                let pre = self.lru@.subrange(0, i as int);
                let post = self.lru@.subrange(0, i as int + 1);
                assert(post.drop_last() =~= pre);
                reveal(Seq::filter);
            }
            if e.row_idx != idx {
                kept.push(e);
            }
            i += 1;
        }
        proof {
            assert(self.lru@.subrange(0, self.lru@.len() as int) =~= self.lru@);
        }
        self.lru = kept;
    }

    /// Clear the pixels of row `idx`.
    fn clear_rows_of(&mut self, idx: usize)
        requires
            old(self).wf(),
            idx < old(self).rows@.len(),
        ensures
            final(self).wf(),
            final(self).data@.len() == old(self).data@.len(),
            forall|p: int| 0 <= p < final(self).data@.len() ==> #[trigger] final(self).data@[p] == (
                if old(self).rows@[idx as int].y * old(self).width <= p
                    < (old(self).rows@[idx as int].y + old(self).rows@[idx as int].height) * old(self).width { 0u8 }
                else { old(self).data@[p] }),
            *final(self) == (Atlas { data: final(self).data, ..*old(self) }),
    {
        let w: u64 = self.width as u64;
        let y_start: u64 = self.rows[idx].y as u64;
        let y_end: u64 = self.rows[idx].y as u64 + self.rows[idx].height as u64;
        let h: u64 = self.height as u64;
        let stop: u64 = if y_end < h { y_end } else { h };
        proof {
            assert(y_start * w <= stop * w <= h * w) by (nonlinear_arith)
                requires y_start <= stop, stop <= h;
        }
        let mut p: u64 = y_start * w;
        let end: u64 = stop * w;
        while p < end
            invariant
                *self == (Atlas { data: self.data, ..*old(self) }),
                self.data@.len() == old(self).data@.len(),
                old(self).data@.len() == h * w,
                y_start * w <= p <= end,
                end == stop * w,
                end <= h * w,
                forall|q: int| 0 <= q < self.data@.len() ==> #[trigger] self.data@[q] == (
                    if y_start * w <= q < p { 0u8 } else { old(self).data@[q] }),
            decreases end - p,
        {
            let ghost before = self.data@;
            let len = self.data.len();
            assert(p < len);
            let pi: usize = p as usize;
            assert(pi as int == p as int);
            self.data.set(pi, 0);
            proof {
                assert(self.data@ == before.update(p as int, 0u8));
                assert forall|q: int| 0 <= q < self.data@.len() implies #[trigger] self.data@[q] == (
                    if y_start * w <= q < p + 1 { 0u8 } else { old(self).data@[q] }) by {
                    if q != p {
                        assert(self.data@[q] == before[q]);
                    }
                }
            }
            p += 1;
        }
        proof {
            assert forall|q: int| 0 <= q < self.data@.len() implies #[trigger] self.data@[q] == (
                if y_start * w <= q < y_end * w { 0u8 } else { old(self).data@[q] }) by {
                if y_end > h {
                    assert(y_end * w >= h * w) by (nonlinear_arith) requires y_end > h;
                }
            }
        }
    }

    /// The atlas size in pixels.
    pub fn size(&self) -> (s: (u32, u32))
        ensures
            s == (self.width, self.height),
    {
        (self.width, self.height)
    }

    /// The texture data.
    pub fn data(&self) -> (d: &[u8])
        ensures
            d@ == self.data@,
    {
        self.data.as_slice()
    }

    pub fn is_dirty(&self) -> (b: bool)
        ensures
            b == self.dirty,
    {
        self.dirty
    }

    /// The texture was uploaded.
    pub fn mark_clean(&mut self)
        ensures
            *final(self) == (Atlas { dirty: false, ..*old(self) }),
    {
        self.dirty = false;
    }

    /// The placement of a cached glyph.
    pub fn get(&self, key: &GlyphKey) -> (r: Option<&GlyphInfo>)
        requires
            self.wf(),
        ensures
            match r {
                Some(info) => self.cached().dom().contains(*key) && self.cached()[*key] == *info,
                None => !self.cached().dom().contains(*key),
            },
    {
        let mut i: usize = 0;
        while i < self.glyphs.len()
            invariant
                self.wf(),
                i <= self.glyphs@.len(),
                forall|j: int| 0 <= j < i ==> (#[trigger] self.glyphs@[j]).0 != *key,
            decreases self.glyphs@.len() - i,
        {
            if self.glyphs[i].0 == *key {
                proof {
                    lemma_glyph_map_at(self.glyphs@, i as int);
                }
                return Some(&self.glyphs[i].1);
            }
            i += 1;
        }
        proof {
            lemma_glyph_map_dom(self.glyphs@, *key);
        }
        None
    }
}


/// Packing a `w` by `h` glyph (each side padded by `pad`): the first row it
/// fits in takes it at its cursor; else a new row below the last one, when
/// the atlas is tall enough. The position and row index, if any.
pub open spec fn alloc_pos(rows: Seq<RowShape>, atlas_w: int, atlas_h: int, pad: int, w: int, h: int) -> Option<(u32, u32, usize)> {
    match first_fit(rows, w + pad, h + pad, atlas_w) {
        Some(i) => Some((rows[i].x_cursor, rows[i].y, i as usize)),
        None => if next_row_y(rows) + h + pad > atlas_h { None } else { Some((0u32, next_row_y(rows) as u32, rows.len() as usize)) },
    }
}

/// The row shapes after that packing.
pub open spec fn alloc_rows(rows: Seq<RowShape>, atlas_w: int, atlas_h: int, pad: int, w: int, h: int) -> Seq<RowShape> {
    let pw = w + pad;
    let ph = h + pad;
    match first_fit(rows, pw, ph, atlas_w) {
        Some(i) => rows.update(i, RowShape { x_cursor: (rows[i].x_cursor + pw) as u32, ..rows[i] }),
        None => if next_row_y(rows) + ph > atlas_h { rows } else {
            rows.push(RowShape { y: next_row_y(rows) as u32, height: ph as u32, x_cursor: pw as u32 })
        },
    }
}

impl Atlas {
    /// Reserve a glyph box in a given row, at its cursor, if it fits.
    pub fn allocate_in_row(&mut self, row_idx: usize, width: u32, height: u32) -> (r: Option<(u32, u32)>)
        requires
            old(self).wf(),
            width + 1 <= u32::MAX,
        ensures
            final(self).wf(),
            final(self).rows@.len() == old(self).rows@.len(),
            forall|i: int| 0 <= i < old(self).rows@.len() ==>
                #[trigger] final(self).rows@[i].glyph_keys@ == old(self).rows@[i].glyph_keys@,
            ({
                let pw = width + old(self).padding;
                let sh = shapes(old(self).rows@);
                if row_idx < sh.len() && sh[row_idx as int].x_cursor + pw <= old(self).width {
                    &&& r == Some((sh[row_idx as int].x_cursor, sh[row_idx as int].y))
                    &&& shapes(final(self).rows@) == sh.update(row_idx as int,
                        RowShape { x_cursor: (sh[row_idx as int].x_cursor + pw) as u32, ..sh[row_idx as int] })
                } else {
                    r.is_none() && shapes(final(self).rows@) == sh
                }
            }),
            *final(self) == (Atlas { rows: final(self).rows, ..*old(self) }),
    {
        let pw: u64 = width as u64 + self.padding as u64;
        if row_idx >= self.rows.len() {
            return None;
        }
        let x = self.rows[row_idx].x_cursor;
        if x as u64 + pw <= self.width as u64 {
            let y = self.rows[row_idx].y;
            let rh = self.rows[row_idx].height;
            let keys = self.rows[row_idx].glyph_keys.clone();
            let updated = AtlasRow { y, height: rh, x_cursor: (x as u64 + pw) as u32, glyph_keys: keys };
            self.rows.set(row_idx, updated);
            proof {
                let sh = shapes(old(self).rows@);
                assert(shapes(self.rows@) =~= sh.update(row_idx as int,
                    RowShape { x_cursor: (sh[row_idx as int].x_cursor + pw) as u32, ..sh[row_idx as int] }));
            }
            return Some((x, y));
        }
        proof {
            assert(shapes(self.rows@) =~= shapes(old(self).rows@));
        }
        None
    }

    /// Reserve a glyph box (see `alloc_pos`): position and row index.
    pub fn allocate(&mut self, width: u32, height: u32) -> (r: Option<(u32, u32, usize)>)
        requires
            old(self).wf(),
            width + 1 <= u32::MAX,
            height + 1 <= u32::MAX,
        ensures
            final(self).wf(),
            r == alloc_pos(shapes(old(self).rows@), old(self).width as int, old(self).height as int,
                old(self).padding as int, width as int, height as int),
            shapes(final(self).rows@) == alloc_rows(shapes(old(self).rows@), old(self).width as int,
                old(self).height as int, old(self).padding as int, width as int, height as int),
            final(self).rows@.len() >= old(self).rows@.len(),
            forall|i: int| 0 <= i < old(self).rows@.len() ==>
                #[trigger] final(self).rows@[i].glyph_keys@ == old(self).rows@[i].glyph_keys@,
            forall|i: int| old(self).rows@.len() <= i < final(self).rows@.len() ==>
                #[trigger] final(self).rows@[i].glyph_keys@.len() == 0,
            *final(self) == (Atlas { rows: final(self).rows, ..*old(self) }),
    {
        let ghost sh = shapes(old(self).rows@);
        let pw: u64 = width as u64 + self.padding as u64;
        let ph: u64 = height as u64 + self.padding as u64;
        let mut i: usize = 0;
        while i < self.rows.len()
            invariant
                *self == *old(self),
                self.wf(),
                sh == shapes(self.rows@),
                pw == width + self.padding,
                ph == height + self.padding,
                i <= self.rows@.len(),
                forall|j: int| 0 <= j < i ==> !(#[trigger] sh[j].height >= ph && sh[j].x_cursor + pw <= self.width),
            decreases self.rows@.len() - i,
        {
            let rh = self.rows[i].height;
            let rx = self.rows[i].x_cursor;
            proof {
                assert(sh[i as int] == shape(self.rows@[i as int]));
            }
            if rh as u64 >= ph && rx as u64 + pw <= self.width as u64 {
                proof {
                    lemma_first_fit(sh, pw as int, ph as int, self.width as int, i as int);
                }
                let y = self.rows[i].y;
                let keys = self.rows[i].glyph_keys.clone();
                self.rows.set(i, AtlasRow { y, height: rh, x_cursor: (rx as u64 + pw) as u32, glyph_keys: keys });
                proof {
                    assert(shapes(self.rows@) =~= sh.update(i as int, RowShape { x_cursor: (rx + pw) as u32, ..sh[i as int] }));
                }
                return Some((rx, y, i));
            }
            i += 1;
        }
        proof {
            lemma_first_fit(sh, pw as int, ph as int, self.width as int, sh.len() as int);
        }
        let n = self.rows.len();
        let y: u64 = if n == 0 { 0 } else { self.rows[n - 1].y as u64 + self.rows[n - 1].height as u64 };
        proof {
            if n > 0 {
                assert(sh.last() == shape(self.rows@[n - 1]));
            }
        }
        if y + ph > self.height as u64 {
            return None;
        }
        self.rows.push(AtlasRow { y: y as u32, height: ph as u32, x_cursor: pw as u32, glyph_keys: Vec::new() });
        proof {
            assert(shapes(self.rows@) =~= sh.push(RowShape { y: y as u32, height: ph as u32, x_cursor: pw as u32 }));
        }
        Some((0, y as u32, n))
    }

    /// Copy a `width` by `height` bitmap into the texture at (`x`, `y`),
    /// row by row, skipping rows that would not fit.
    fn blit(&mut self, x: u32, y: u32, bitmap: &[u8], width: u32, height: u32)
        ensures
            final(self).data@ == blitted(old(self).data@, old(self).width as int, x as int, y as int,
                bitmap@, width as int, height as nat),
            final(self).data@.len() == old(self).data@.len(),
            *final(self) == (Atlas { data: final(self).data, ..*old(self) }),
    {
        let mut row: u32 = 0;
        while row < height
            invariant
                row <= height,
                self.data@ == blitted(old(self).data@, old(self).width as int, x as int, y as int,
                    bitmap@, width as int, row as nat),
                *self == (Atlas { data: self.data, ..*old(self) }),
            decreases height - row,
        {
            let ghost before = self.data@;
            assert(row * width <= 0xffff_ffffu128 * 0xffff_ffffu128) by (nonlinear_arith)
                requires row <= 0xffff_ffffu128, width <= 0xffff_ffffu128;
            let src_start: u128 = row as u128 * width as u128;
            let src_end: u128 = src_start + width as u128;
            assert((y + row) * self.width <= 0x2_0000_0000u128 * 0xffff_ffffu128) by (nonlinear_arith)
                requires y + row <= 0x2_0000_0000u128, self.width <= 0xffff_ffffu128;
            let dst_start: u128 = (y as u128 + row as u128) * self.width as u128 + x as u128;
            let data_len = self.data.len();
            let bitmap_len = bitmap.len();
            if dst_start + (width as u128) <= data_len as u128 && src_end <= bitmap_len as u128 {
                let mut c: u128 = 0;
                while c < width as u128
                    invariant
                        c <= width,
                        self.data@.len() == before.len(),
                        *self == (Atlas { data: self.data, ..*old(self) }),
                        data_len == self.data@.len(),
                        bitmap_len == bitmap@.len(),
                        dst_start + width <= data_len,
                        src_end <= bitmap_len,
                        src_end == src_start + width,
                        forall|i: int| 0 <= i < before.len() ==> #[trigger] self.data@[i] == (
                            if dst_start <= i < dst_start + c { bitmap@[src_start + i - dst_start] } else { before[i] }),
                    decreases width - c,
                {
                    let b = bitmap[(src_start + c) as usize];
                    self.data.set((dst_start + c) as usize, b);
                    c += 1;
                }
                proof {
                    assert(self.data@ =~= copy_run(before, dst_start as int, bitmap@, src_start as int, width as int));
                }
            }
            proof {
                assert(self.data@ == blitted(old(self).data@, old(self).width as int, x as int, y as int,
                    bitmap@, width as int, (row + 1) as nat));
            }
            row += 1;
        }
        proof {
            lemma_blitted_len(old(self).data@, old(self).width as int, x as int, y as int, bitmap@, width as int, height as nat);
        }
    }

    /// Cache a rasterized glyph: a glyph already cached keeps its placement
    /// (and counts as used); an empty one is recorded with no box; otherwise
    /// it is packed (see `alloc_pos`), and when the atlas is full the least
    /// recently used row is given up and the glyph placed at its start if it
    /// fits there. `None` when it cannot be placed.
    pub fn cache_rasterized(&mut self, key: GlyphKey, glyph: RasterizedGlyph) -> (r: Option<GlyphInfo>)
        requires
            old(self).wf(),
            glyph.width + 1 <= u32::MAX,
            glyph.height + 1 <= u32::MAX,
        ensures
            final(self).wf(),
            final(self).width == old(self).width,
            final(self).height == old(self).height,
            final(self).frame == old(self).frame,
            old(self).cached().dom().contains(key) ==> {
                &&& r == Some(old(self).cached()[key])
                &&& final(self).lru@ == refreshed(old(self).lru@, key, old(self).frame)
                &&& *final(self) == (Atlas { lru: final(self).lru, ..*old(self) })
            },
            !old(self).cached().dom().contains(key) && (glyph.width == 0 || glyph.height == 0) ==> {
                let info = GlyphInfo { atlas_x: 0, atlas_y: 0, width: 0, height: 0 };
                &&& r == Some(info)
                &&& final(self).cached() == old(self).cached().insert(key, info)
            },
            !old(self).cached().dom().contains(key) && glyph.width > 0 && glyph.height > 0 ==> {
                let pos = alloc_pos(shapes(old(self).rows@), old(self).width as int, old(self).height as int,
                    old(self).padding as int, glyph.width as int, glyph.height as int);
                match pos {
                    Some(p) => {
                        let info = GlyphInfo { atlas_x: p.0, atlas_y: p.1, width: glyph.width, height: glyph.height };
                        &&& r == Some(info)
                        &&& final(self).cached() == old(self).cached().insert(key, info)
                        &&& final(self).dirty
                    },
                    None => if old(self).rows@.len() == 0 {
                        r.is_none()
                    } else {
                        let idx = oldest_row(old(self).lru@, old(self).rows@.len() as int).1;
                        let row = old(self).rows@[idx];
                        let left = without_keys(old(self).cached(), row.glyph_keys@);
                        if glyph.width + old(self).padding <= old(self).width {
                            let info = GlyphInfo { atlas_x: 0, atlas_y: row.y, width: glyph.width, height: glyph.height };
                            &&& r == Some(info)
                            &&& final(self).cached() == left.insert(key, info)
                            &&& final(self).dirty
                        } else {
                            &&& r.is_none()
                            &&& final(self).cached() == left
                        }
                    },
                }
            },
    {
        match self.get(&key) {
            Some(info) => {
                let found = *info;
                self.refresh(key);
                return Some(found);
            },
            None => {},
        }
        let w = glyph.width;
        let h = glyph.height;
        if w == 0 || h == 0 {
            let info = GlyphInfo { atlas_x: 0, atlas_y: 0, width: 0, height: 0 };
            self.insert_glyph(key, info);
            return Some(info);
        }
        let ghost pre = *self;
        let (x, y, row_idx) = match self.allocate(w, h) {
            Some(p) => p,
            None => {
                let ghost mid = *self;
                proof {
                    assert(shapes(mid.rows@).len() == shapes(pre.rows@).len());
                    assert forall|i: int| 0 <= i < mid.rows@.len() implies
                        #[trigger] mid.rows@[i].y == pre.rows@[i].y && mid.rows@[i].height == pre.rows@[i].height by {
                        assert(shapes(mid.rows@)[i] == shape(mid.rows@[i]));
                        assert(shapes(pre.rows@)[i] == shape(pre.rows@[i]));
                    }
                }
                let nrows = self.rows.len();
                proof {
                    if mid.rows@.len() > 0 {
                        lemma_oldest_row_range(mid.lru@, mid.rows@.len() as int);
                    }
                    assert(nrows == mid.rows@.len());
                }
                match self.evict_lru_row() {
                    Some(evicted) => {
                        let ghost after = *self;
                        proof {
                            assert(shapes(after.rows@)[evicted as int] == shape(after.rows@[evicted as int]));
                            assert(mid.rows@[evicted as int].glyph_keys@ == pre.rows@[evicted as int].glyph_keys@);
                            assert(mid.cached() == pre.cached());
                            assert(!after.cached().dom().contains(key));
                        }
                        proof {
                            let idx = oldest_row(pre.lru@, pre.rows@.len() as int).1;
                            assert(mid.lru@ == pre.lru@);
                            assert(evicted as int == idx);
                            assert(after.rows@[idx].x_cursor == 0);
                            assert(after.padding == pre.padding);
                            assert(after.width == pre.width);
                            assert(evicted < shapes(after.rows@).len());
                        }
                        match self.allocate_in_row(evicted, w, h) {
                            Some((x, y)) => (x, y, evicted),
                            None => {
                                return None;
                            },
                        }
                    },
                    None => {
                        return None;
                    },
                }
            },
        };
        self.blit(x, y, glyph.bitmap.as_slice(), w, h);
        let info = GlyphInfo { atlas_x: x, atlas_y: y, width: w, height: h };
        proof {
            lemma_glyph_map_dom(self.glyphs@, key);
        }
        self.insert_glyph(key, info);
        self.touch(key, row_idx);
        if row_idx < self.rows.len() {
            let mut keys = self.rows[row_idx].glyph_keys.clone();
            keys.push(key);
            let updated = AtlasRow { y: self.rows[row_idx].y, height: self.rows[row_idx].height,
                x_cursor: self.rows[row_idx].x_cursor, glyph_keys: keys };
            self.rows.set(row_idx, updated);
        }
        self.dirty = true;
        Some(info)
    }

    /// Add a glyph that is not cached yet.
    fn insert_glyph(&mut self, key: GlyphKey, info: GlyphInfo)
        requires
            glyph_keys_distinct(old(self).glyphs@),
            !glyph_map(old(self).glyphs@).dom().contains(key),
        ensures
            glyph_keys_distinct(final(self).glyphs@),
            glyph_map(final(self).glyphs@) == glyph_map(old(self).glyphs@).insert(key, info),
            *final(self) == (Atlas { glyphs: final(self).glyphs, ..*old(self) }),
    {
        proof {
            lemma_glyph_map_dom(self.glyphs@, key);
        }
        self.glyphs.push((key, info));
        proof {
            assert(self.glyphs@.drop_last() =~= old(self).glyphs@);
            assert forall|a: int, b: int| 0 <= a < self.glyphs@.len() && 0 <= b < self.glyphs@.len() && a != b
                implies self.glyphs@[a].0 != self.glyphs@[b].0 by {
                if a < old(self).glyphs@.len() && b < old(self).glyphs@.len() {
                    assert(self.glyphs@[a] == old(self).glyphs@[a] && self.glyphs@[b] == old(self).glyphs@[b]);
                } else if a < old(self).glyphs@.len() {
                    assert(self.glyphs@[a] == old(self).glyphs@[a]);
                } else if b < old(self).glyphs@.len() {
                    assert(self.glyphs@[b] == old(self).glyphs@[b]);
                }
            }
        }
    }

    /// Empty the atlas: pixels cleared, no glyphs, rows or usage.
    pub fn clear(&mut self)
        requires
            old(self).wf(),
        ensures
            final(self).wf(),
            final(self).width == old(self).width,
            final(self).height == old(self).height,
            final(self).data@ == Seq::new(old(self).data@.len(), |i: int| 0u8),
            final(self).cached() == Map::<GlyphKey, GlyphInfo>::empty(),
            final(self).rows@.len() == 0,
            final(self).lru@.len() == 0,
            final(self).current_row == 0,
            final(self).frame == old(self).frame,
            final(self).dirty,
    {
        let n = self.data.len();
        let mut i: usize = 0;
        while i < n
            invariant
                n == self.data@.len(),
                n == old(self).data@.len(),
                *self == (Atlas { data: self.data, ..*old(self) }),
                i <= n,
                forall|j: int| 0 <= j < i ==> self.data@[j] == 0u8,
            decreases n - i,
        {
            self.data.set(i, 0);
            i += 1;
        }
        proof {
            assert(self.data@ =~= Seq::new(n as nat, |i: int| 0u8));
        }
        self.glyphs = Vec::new();
        self.rows = Vec::new();
        self.current_row = 0;
        self.lru = Vec::new();
        self.dirty = true;
    }

    /// How many glyphs are cached.
    pub fn glyph_count(&self) -> (n: usize)
        requires
            self.wf(),
        ensures
            n == self.cached().dom().len(),
    {
        proof {
            lemma_glyph_map_len(self.glyphs@);
        }
        self.glyphs.len()
    }
}

proof fn lemma_glyph_map_len(s: Seq<(GlyphKey, GlyphInfo)>)
    requires
        glyph_keys_distinct(s),
    ensures
        glyph_map(s).dom().finite(),
        glyph_map(s).dom().len() == s.len(),
    decreases s.len(),
{
    if s.len() > 0 {
        let t = s.drop_last();
        lemma_distinct_drop_last(s);
        lemma_glyph_map_len(t);
        lemma_glyph_map_dom(t, s.last().0);
        if glyph_map(t).dom().contains(s.last().0) {
            let i = choose|i: int| 0 <= i < t.len() && (#[trigger] t[i]).0 == s.last().0;
            assert(t[i] == s[i]);
            assert(false);
        }
    }
}

} // verus!

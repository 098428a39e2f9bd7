//! Sixel graphics decoder: DCS sixel data into an RGBA bitmap.

use vstd::prelude::*;

verus! {

/// Color in RGB format.
#[derive(Debug, Clone, Copy, PartialEq, Eq, Structural)]
pub struct SixelColor {
    pub r: u8,
    pub g: u8,
    pub b: u8,
}

impl Default for SixelColor {
    fn default() -> (c: Self)
        ensures c == (SixelColor { r: 0, g: 0, b: 0 }),
    {
        SixelColor { r: 0, g: 0, b: 0 }
    }
}

/// `v` cut to the range of a byte (negative values give 0).
pub open spec fn clamp_byte(v: int) -> u8 {
    if v < 0 { 0 } else if v > 255 { 255 } else { v as u8 }
}

/// `|v|`
pub open spec fn abs_int(v: int) -> int {
    if v < 0 { -v } else { v }
}

/// One RGB component of an HLS color: `(v + m) * 255` where the chroma,
/// second component and lightness offset are measured in units of
/// 1/1200000, cut to a byte.
pub open spec fn hls_component(v: int, m: int) -> u8 {
    let scaled = (v + m) * 255;
    clamp_byte(if scaled < 0 { 0 } else { scaled / 1200000 })
}

/// The RGB form of an HLS color (hue in degrees, lightness and saturation
/// in percent), computed exactly.
pub open spec fn hls_value(h: u16, l: u16, s: u16) -> SixelColor {
    if s == 0 {
        let v = clamp_byte((l * 255) / 100);
        SixelColor { r: v, g: v, b: v }
    } else {
        let chroma = (100 - abs_int(2 * l - 100)) * s * 120;
        let x = (100 - abs_int(2 * l - 100)) * s * 2 * (60 - abs_int((h % 120) - 60));
        let m = l * 12000 - (100 - abs_int(2 * l - 100)) * s * 60;
        let (r, g, b) = if h < 60 {
            (chroma, x, 0)
        } else if h < 120 {
            (x, chroma, 0)
        } else if h < 180 {
            (0, chroma, x)
        } else if h < 240 {
            (0, x, chroma)
        } else if h < 300 {
            (x, 0, chroma)
        } else {
            (chroma, 0, x)
        };
        SixelColor { r: hls_component(r, m), g: hls_component(g, m), b: hls_component(b, m) }
    }
}

/// A color given in percent per component, scaled to bytes.
pub open spec fn percent_color(p1: u16, p2: u16, p3: u16) -> SixelColor {
    SixelColor { r: ((p1 * 255 / 100) % 256) as u8, g: ((p2 * 255 / 100) % 256) as u8, b: ((p3 * 255 / 100) % 256) as u8 }
}

fn clamp_byte_exec(v: i64) -> (b: u8)
    ensures b == clamp_byte(v as int),
{
    if v < 0 { 0 } else if v > 255 { 255 } else { v as u8 }
}

fn hls_component_exec(v: i64, m: i64) -> (b: u8)
    requires
        -2_000_000_000_000i64 <= v <= 2_000_000_000_000i64,
        -2_000_000_000_000i64 <= m <= 2_000_000_000_000i64,
    ensures b == hls_component(v as int, m as int),
{
    let scaled: i64 = (v + m) * 255;
    if scaled < 0 { 0 } else { clamp_byte_exec(scaled / 1200000) }
}

impl SixelColor {
    pub fn rgb(r: u8, g: u8, b: u8) -> (c: Self)
        ensures c == (SixelColor { r, g, b }),
    {
        SixelColor { r, g, b }
    }

    /// Convert from HLS (hue 0-360 degrees, lightness and saturation 0-100
    /// percent) to RGB.
    pub fn from_hls(h: u16, l: u16, s: u16) -> (c: Self)
        ensures c == hls_value(h, l, s),
    {
        if s == 0 {
            let v = clamp_byte_exec((l as i64 * 255) / 100);
            return SixelColor { r: v, g: v, b: v };
        }
        let li = l as i64;
        let si = s as i64;
        let hi = h as i64;
        let d: i64 = 2 * li - 100;
        let ad: i64 = if d < 0 { -d } else { d };
        let e: i64 = (hi % 120) - 60;
        let ae: i64 = if e < 0 { -e } else { e };
        proof {
            assert(0 <= li <= 65535);
            assert(0 <= si <= 65535);
            assert(-131070 <= 100 - ad <= 100);
            assert(0 <= 60 - ae <= 60);
            assert(-8_589_803_450i64 <= (100 - ad) * si <= 6_553_500) by (nonlinear_arith)
                requires -131070 <= 100 - ad <= 100, 0 <= si <= 65535;
        }
        let base: i64 = (100 - ad) * si;
        let chroma: i64 = base * 120;
        proof {
            assert(-1_030_776_414_000i64 <= base * 2 * (60 - ae) <= 786_420_000) by (nonlinear_arith)
                requires -8_589_803_450i64 <= base <= 6_553_500, 0 <= 60 - ae <= 60;
        }
        let x: i64 = base * 2 * (60 - ae);
        let m: i64 = li * 12000 - base * 60;
        let (r, g, b): (i64, i64, i64) = if hi < 60 {
            (chroma, x, 0)
        } else if hi < 120 {
            (x, chroma, 0)
        } else if hi < 180 {
            (0, chroma, x)
        } else if hi < 240 {
            (0, x, chroma)
        } else if hi < 300 {
            (x, 0, chroma)
        } else {
            (chroma, 0, x)
        };
        SixelColor { r: hls_component_exec(r, m), g: hls_component_exec(g, m), b: hls_component_exec(b, m) }
    }
}

/// Decoded sixel image.
#[derive(Debug)]
pub struct SixelImage {
    /// Image width in pixels.
    pub width: u32,
    /// Image height in pixels.
    pub height: u32,
    /// RGBA pixel data, row after row (`width * height * 4` bytes).
    pub data: Vec<u8>,
    /// Background is transparent.
    pub transparent: bool,
}

/// Byte `k` of pixel (`x`, `y`) of `img` once grown: the pixel's own where
/// it had one, else 0 (transparent black).
pub open spec fn grown_pixel(img: SixelImage, x: int, y: int, k: int) -> u8 {
    if x < img.width && y < img.height { img.data@[pixel_offset(img.width as int, x, y) + k] } else { 0 }
}

/// Byte offset of pixel (`x`, `y`) in an image `width` pixels wide.
pub open spec fn pixel_offset(width: int, x: int, y: int) -> int {
    (y * width + x) * 4
}

impl SixelImage {
    /// Well-formed: four bytes per pixel, and the size fits in 32 bits.
    pub open spec fn wf(&self) -> bool {
        &&& self.data@.len() == self.width * self.height * 4
        &&& self.width * self.height * 4 <= u32::MAX
    }

    /// An empty image.
    pub fn new() -> (img: Self)
        ensures
            img.wf(),
            img.width == 0,
            img.height == 0,
            img.data@.len() == 0,
            !img.transparent,
    {
        SixelImage { width: 0, height: 0, data: Vec::new(), transparent: false }
    }

    /// Set pixel (`x`, `y`) to `color`, opaque; pixels outside are ignored.
    pub fn set_pixel(&mut self, x: u32, y: u32, color: &SixelColor)
        requires
            old(self).wf(),
        ensures
            final(self).wf(),
            final(self).width == old(self).width,
            final(self).height == old(self).height,
            final(self).transparent == old(self).transparent,
            (x < old(self).width && y < old(self).height) ==> final(self).data@ == old(self).data@
                .update(pixel_offset(old(self).width as int, x as int, y as int), color.r)
                .update(pixel_offset(old(self).width as int, x as int, y as int) + 1, color.g)
                .update(pixel_offset(old(self).width as int, x as int, y as int) + 2, color.b)
                .update(pixel_offset(old(self).width as int, x as int, y as int) + 3, 255u8),
            !(x < old(self).width && y < old(self).height) ==> final(self).data == old(self).data,
    {
        if x >= self.width || y >= self.height {
            return;
        }
        proof {
            let w = self.width as int;
            let h = self.height as int;
            assert((y * w + x) * 4 + 3 < w * h * 4) by (nonlinear_arith)
                requires 0 <= x < w, 0 <= y < h;
            assert(0 <= (y * w + x) * 4) by (nonlinear_arith)
                requires 0 <= x, 0 <= y, 0 <= w;
        }
        let idx: usize = ((y * self.width + x) * 4) as usize;
        self.data.set(idx, color.r);
        self.data.set(idx + 1, color.g);
        self.data.set(idx + 2, color.b);
        self.data.set(idx + 3, 255);
    }

    /// Grow to at least `new_width` x `new_height`, keeping the pixels;
    /// nothing happens when already that large, or when the grown image
    /// would not fit in 32-bit sizes.
    pub fn resize(&mut self, new_width: u32, new_height: u32)
        requires
            old(self).wf(),
        ensures
            final(self).wf(),
            (final(self).width, final(self).height) == grown_size(old(self).width, old(self).height, new_width, new_height),
            forall|x: int, y: int, k: int| 0 <= x < final(self).width && 0 <= y < final(self).height && 0 <= k < 4 ==>
                #[trigger] final(self).data@[pixel_offset(final(self).width as int, x, y) + k] == grown_pixel(*old(self), x, y, k),
            final(self).transparent == old(self).transparent,
            ({
                let w = if new_width > old(self).width { new_width as int } else { old(self).width as int };
                let h = if new_height > old(self).height { new_height as int } else { old(self).height as int };
                if (new_width <= old(self).width && new_height <= old(self).height) || w * h * 4 > u32::MAX {
                    *final(self) == *old(self)
                } else {
                    &&& final(self).width == w
                    &&& final(self).height == h
                    &&& forall|x: int, y: int, k: int| 0 <= x < old(self).width && 0 <= y < old(self).height && 0 <= k < 4 ==>
                        #[trigger] final(self).data@[pixel_offset(w, x, y) + k] == old(self).data@[pixel_offset(old(self).width as int, x, y) + k]
                }
            }),
    {
        if new_width <= self.width && new_height <= self.height {
            return;
        }
        let new_w: u32 = if new_width > self.width { new_width } else { self.width };
        let new_h: u32 = if new_height > self.height { new_height } else { self.height };
        proof {
            assert(new_w as int * new_h as int <= 0xffff_ffff * 0xffff_ffff) by (nonlinear_arith)
                requires new_w <= 0xffff_ffff, new_h <= 0xffff_ffff;
        }
        let total128: u128 = new_w as u128 * new_h as u128 * 4;
        if total128 > 0xffff_ffff {
            return;
        }
        let total: u64 = total128 as u64;
        let mut new_data: Vec<u8> = Vec::new();
        let mut i: u64 = 0;
        while i < total
            invariant
                0 <= i <= total,
                total <= 0xffff_ffff,
                new_data@.len() == i,
                forall|j: int| 0 <= j < i ==> new_data@[j] == 0u8,
            decreases total - i,
        {
            new_data.push(0);
            i = i + 1;
        }
        let old_w = self.width;
        let old_h = self.height;
        proof {
            assert(old_w as int * old_h as int <= new_w as int * new_h as int) by (nonlinear_arith)
                requires old_w <= new_w, old_h <= new_h;
        }
        proof {
            assert forall|xx: int, yy: int, k: int| 0 <= xx < new_w && 0 <= yy < new_h && 0 <= k < 4 implies
                #[trigger] new_data@[pixel_offset(new_w as int, xx, yy) + k] == 0u8 by {
                lemma_offsets(new_w as int, new_h as int, new_w as int, new_h as int, xx, yy);
            }
        }
        let mut y: u32 = 0;
        while y < old_h
            invariant
                0 <= y <= old_h,
                forall|xx: int, yy: int, k: int| 0 <= xx < new_w && 0 <= yy < new_h && 0 <= k < 4 && !(xx < old_w && yy < y) ==>
                    #[trigger] new_data@[pixel_offset(new_w as int, xx, yy) + k] == 0u8,
                old_w <= new_w,
                old_h <= new_h,
                old_w == self.width,
                old_h == self.height,
                self.wf(),
                *self == *old(self),
                new_data@.len() == new_w as int * new_h as int * 4,
                new_w as int * new_h as int * 4 <= u32::MAX,
                forall|x: int, yy: int, k: int| 0 <= x < old_w && 0 <= yy < y && 0 <= k < 4 ==>
                    #[trigger] new_data@[pixel_offset(new_w as int, x, yy) + k] == self.data@[pixel_offset(old_w as int, x, yy) + k],
            decreases old_h - y,
        {
            let mut x: u32 = 0;
            while x < old_w
                invariant
                    0 <= x <= old_w,
                    y < old_h,
                    old_w <= new_w,
                    old_h <= new_h,
                    old_w == self.width,
                    old_h == self.height,
                    self.wf(),
                    *self == *old(self),
                    new_data@.len() == new_w as int * new_h as int * 4,
                    new_w as int * new_h as int * 4 <= u32::MAX,
                    forall|xx: int, yy: int, k: int| 0 <= xx < old_w && 0 <= yy < y && 0 <= k < 4 ==>
                        #[trigger] new_data@[pixel_offset(new_w as int, xx, yy) + k] == self.data@[pixel_offset(old_w as int, xx, yy) + k],
                    forall|xx: int, k: int| 0 <= xx < x && 0 <= k < 4 ==>
                        #[trigger] new_data@[pixel_offset(new_w as int, xx, y as int) + k] == self.data@[pixel_offset(old_w as int, xx, y as int) + k],
                    forall|xx: int, yy: int, k: int| 0 <= xx < new_w && 0 <= yy < new_h && 0 <= k < 4 && !(xx < old_w && yy < y)
                        && !(yy == y && xx < x) ==>
                        #[trigger] new_data@[pixel_offset(new_w as int, xx, yy) + k] == 0u8,
                decreases old_w - x,
            {
                proof {
                    lemma_offsets(old_w as int, old_h as int, new_w as int, new_h as int, x as int, y as int);
                }
                let old_idx: usize = ((y * old_w + x) * 4) as usize;
                let new_idx: usize = ((y * new_w + x) * 4) as usize;
                let ghost before = new_data@;
                let mut k: usize = 0;
                while k < 4
                    invariant
                        0 <= k <= 4,
                        old_idx as int == pixel_offset(old_w as int, x as int, y as int),
                        new_idx as int == pixel_offset(new_w as int, x as int, y as int),
                        old_idx + 4 <= self.data@.len(),
                        new_idx + 4 <= new_data@.len(),
                        new_data@.len() == before.len(),
                        forall|j: int| 0 <= j < new_data@.len() && !(new_idx <= j < new_idx + k) ==> #[trigger] new_data@[j] == before[j],
                        forall|j: int| new_idx <= j < new_idx + k ==> #[trigger] new_data@[j] == self.data@[old_idx + (j - new_idx)],
                    decreases 4 - k,
                {
                    new_data.set(new_idx + k, self.data[old_idx + k]);
                    k = k + 1;
                }
                proof {
                    assert forall|xx: int, yy: int, kk: int| 0 <= xx < old_w && 0 <= yy < y && 0 <= kk < 4 implies
                        #[trigger] new_data@[pixel_offset(new_w as int, xx, yy) + kk] == self.data@[pixel_offset(old_w as int, xx, yy) + kk] by {
                        lemma_offsets(old_w as int, old_h as int, new_w as int, new_h as int, xx, yy);
                        lemma_offset_distinct(new_w as int, new_h as int, xx, yy, x as int, y as int, kk);
                        assert(new_data@[pixel_offset(new_w as int, xx, yy) + kk] == before[pixel_offset(new_w as int, xx, yy) + kk]);
                    }
                    assert forall|xx: int, kk: int| 0 <= xx < x + 1 && 0 <= kk < 4 implies
                        #[trigger] new_data@[pixel_offset(new_w as int, xx, y as int) + kk] == self.data@[pixel_offset(old_w as int, xx, y as int) + kk] by {
                        lemma_offsets(old_w as int, old_h as int, new_w as int, new_h as int, xx, y as int);
                        if xx < x {
                            lemma_offset_distinct(new_w as int, new_h as int, xx, y as int, x as int, y as int, kk);
                            assert(new_data@[pixel_offset(new_w as int, xx, y as int) + kk] == before[pixel_offset(new_w as int, xx, y as int) + kk]);
                        } else {
                            assert(new_data@[new_idx + kk] == self.data@[old_idx + kk]);
                        }
                    }
                    assert forall|xx: int, yy: int, kk: int| 0 <= xx < new_w && 0 <= yy < new_h && 0 <= kk < 4
                        && !(xx < old_w && yy < y) && !(yy == y && xx < x + 1) implies
                        #[trigger] new_data@[pixel_offset(new_w as int, xx, yy) + kk] == 0u8 by {
                        lemma_offsets(new_w as int, new_h as int, new_w as int, new_h as int, xx, yy);
                        lemma_offset_distinct(new_w as int, new_h as int, xx, yy, x as int, y as int, kk);
                        assert(new_data@[pixel_offset(new_w as int, xx, yy) + kk] == before[pixel_offset(new_w as int, xx, yy) + kk]);
                    }
                }
                x = x + 1;
            }
            y = y + 1;
        }
        self.width = new_w;
        self.height = new_h;
        self.data = new_data;
    }
}

proof fn lemma_offsets(ow: int, oh: int, nw: int, nh: int, x: int, y: int)
    requires
        0 <= x < ow <= nw,
        0 <= y < oh <= nh,
        nw * nh * 4 <= u32::MAX,
    ensures
        (y * ow + x) * 4 + 4 <= ow * oh * 4,
        (y * nw + x) * 4 + 4 <= nw * nh * 4,
        0 <= (y * ow + x) * 4,
        0 <= (y * nw + x) * 4,
        y * ow + x <= u32::MAX,
        (y * ow + x) * 4 <= u32::MAX,
        y * nw + x <= u32::MAX,
        (y * nw + x) * 4 <= u32::MAX,
        y * ow <= u32::MAX,
        y * nw <= u32::MAX,
{
    assert((y * ow + x) * 4 + 4 <= ow * oh * 4) by (nonlinear_arith)
        requires 0 <= x < ow, 0 <= y < oh;
    assert((y * nw + x) * 4 + 4 <= nw * nh * 4) by (nonlinear_arith)
        requires 0 <= x < nw, 0 <= y < nh;
    assert(ow * oh <= nw * nh) by (nonlinear_arith)
        requires 0 <= ow <= nw, 0 <= oh <= nh;
    assert(0 <= y * ow) by (nonlinear_arith) requires 0 <= y, 0 <= ow;
    assert(0 <= y * nw) by (nonlinear_arith) requires 0 <= y, 0 <= nw;
}

/// Different pixels of an image have disjoint bytes.
proof fn lemma_offset_distinct(w: int, h: int, x1: int, y1: int, x2: int, y2: int, k: int)
    requires
        0 <= x1 < w,
        0 <= x2 < w,
        0 <= y1,
        0 <= y2,
        (x1, y1) != (x2, y2),
        0 <= k < 4,
    ensures
        !(pixel_offset(w, x2, y2) <= pixel_offset(w, x1, y1) + k < pixel_offset(w, x2, y2) + 4),
{
    if y1 == y2 {
        assert(x1 != x2);
    } else if y1 < y2 {
        assert(y1 * w + x1 < y2 * w) by (nonlinear_arith)
            requires y1 < y2, 0 <= x1 < w;
    } else {
        assert(y2 * w + x2 < y1 * w) by (nonlinear_arith)
            requires y2 < y1, 0 <= x2 < w;
    }
}

/// The color a palette holds for an index: its latest entry for it.
pub open spec fn palette_get(p: Seq<(u16, SixelColor)>, index: u16) -> Option<SixelColor>
    decreases p.len(),
{
    if p.len() == 0 {
        None
    } else if p.last().0 == index {
        Some(p.last().1)
    } else {
        palette_get(p.drop_last(), index)
    }
}

proof fn lemma_palette_update(p: Seq<(u16, SixelColor)>, i: int, index: u16, color: SixelColor, other: u16)
    requires
        0 <= i < p.len(),
        p[i].0 == index,
        forall|j: int| i < j < p.len() ==> #[trigger] p[j].0 != index,
    ensures
        palette_get(p.update(i, (index, color)), index) == Some(color),
        other != index ==> palette_get(p.update(i, (index, color)), other) == palette_get(p, other),
    decreases p.len(),
{
    if i == p.len() - 1 {
        assert(p.update(i, (index, color)).drop_last() =~= p.drop_last());
    } else {
        assert(p.update(i, (index, color)).drop_last() =~= p.drop_last().update(i, (index, color)));
        lemma_palette_update(p.drop_last(), i, index, color, other);
    }
}

proof fn lemma_palette_absent(p: Seq<(u16, SixelColor)>, index: u16)
    requires
        forall|j: int| 0 <= j < p.len() ==> #[trigger] p[j].0 != index,
    ensures
        palette_get(p, index).is_none(),
    decreases p.len(),
{
    if p.len() > 0 {
        lemma_palette_absent(p.drop_last(), index);
    }
}

/// A palette component given in percent (0-100), as a byte.
pub open spec fn percent_byte(p: int) -> u8 {
    (p * 255 / 100) as u8
}

/// The default (VT340) 16-color palette, in percent per component.
pub open spec fn default_palette_percent(i: int) -> (int, int, int) {
    if i == 0 { (0, 0, 0) }
    else if i == 1 { (20, 20, 80) }
    else if i == 2 { (80, 13, 13) }
    else if i == 3 { (20, 80, 20) }
    else if i == 4 { (80, 20, 80) }
    else if i == 5 { (20, 80, 80) }
    else if i == 6 { (80, 80, 20) }
    else if i == 7 { (53, 53, 53) }
    else if i == 8 { (26, 26, 26) }
    else if i == 9 { (33, 33, 100) }
    else if i == 10 { (100, 26, 26) }
    else if i == 11 { (33, 100, 33) }
    else if i == 12 { (100, 33, 100) }
    else if i == 13 { (33, 100, 100) }
    else if i == 14 { (100, 100, 33) }
    else { (80, 80, 80) }
}

/// Default palette color `i` (0-15).
pub open spec fn default_sixel_color(i: int) -> SixelColor {
    let (r, g, b) = default_palette_percent(i);
    SixelColor { r: percent_byte(r), g: percent_byte(g), b: percent_byte(b) }
}

/// Decoder parse state.
#[derive(Debug, Clone, Copy, PartialEq, Eq, Structural)]
pub enum DecodeState {
    Normal,
    /// Parsing a `!` repeat count.
    Repeat,
    /// Parsing a `#` color definition.
    ColorDef,
    /// Parsing `"` raster attributes.
    Raster,
}

/// Sixel decoder state.
pub struct SixelDecoder {
    /// Color palette: index and color, latest entry wins.
    pub palette: Vec<(u16, SixelColor)>,
    /// Current color index.
    pub current_color: u16,
    /// Current X position in pixels.
    pub x: u32,
    /// Current Y position in sixel rows (6 pixels each).
    pub y: u32,
    /// Aspect ratio numerator.
    pub aspect_num: u16,
    /// Aspect ratio denominator.
    pub aspect_den: u16,
    /// Horizontal grid size.
    pub grid_width: u16,
    /// Vertical grid size.
    pub grid_height: u16,
    /// Background mode (0 = device default, 1 = no change, 2 = transparent).
    pub bg_mode: u8,
    /// The decoded image.
    pub image: SixelImage,
    pub state: DecodeState,
    /// Parameters collected so far.
    pub params: Vec<u16>,
    /// Parameter being parsed.
    pub current_param: u16,
    /// Repeat count for the next sixel.
    pub repeat_count: u32,
}

impl SixelDecoder {
    pub open spec fn wf(&self) -> bool {
        self.image.wf()
    }

    /// A decoder with the default 16-color palette and an empty image.
    pub fn new() -> (d: Self)
        ensures
            d.wf(),
            forall|i: int| 0 <= i < 16 ==> #[trigger] palette_get(d.palette@, i as u16) == Some(default_sixel_color(i)),
            forall|i: u16| i >= 16 ==> #[trigger] palette_get(d.palette@, i).is_none(),
            d.current_color == 0,
            d.x == 0,
            d.y == 0,
            d.aspect_num == 1,
            d.aspect_den == 1,
            d.state == DecodeState::Normal,
            d.params@.len() == 0,
            d.current_param == 0,
            d.repeat_count == 1,
            d.image.width == 0,
            d.image.height == 0,
            !d.image.transparent,
    {
        let mut decoder = SixelDecoder {
            palette: Vec::new(),
            current_color: 0,
            x: 0,
            y: 0,
            aspect_num: 1,
            aspect_den: 1,
            grid_width: 0,
            grid_height: 0,
            bg_mode: 0,
            image: SixelImage::new(),
            state: DecodeState::Normal,
            params: Vec::new(),
            current_param: 0,
            repeat_count: 1,
        };
        decoder.init_default_palette();
        decoder
    }

    /// The palette color of an index, if defined.
    pub fn palette_color(&self, index: u16) -> (c: Option<SixelColor>)
        ensures c == palette_get(self.palette@, index),
    {
        let mut i: usize = self.palette.len();
        assert(self.palette@.take(i as int) =~= self.palette@);
        while i > 0
            invariant
                0 <= i <= self.palette@.len(),
                palette_get(self.palette@, index) == palette_get(self.palette@.take(i as int), index),
            decreases i,
        {
            let (k, c) = self.palette[i - 1];
            assert(self.palette@.take(i as int).drop_last() =~= self.palette@.take(i - 1));
            if k == index {
                return Some(c);
            }
            i = i - 1;
        }
        None
    }

    /// Define (or redefine) a palette color.
    pub fn set_palette_color(&mut self, index: u16, color: SixelColor)
        ensures
            palette_get(final(self).palette@, index) == Some(color),
            forall|k: u16| k != index ==> #[trigger] palette_get(final(self).palette@, k) == palette_get(old(self).palette@, k),
            *final(self) == (SixelDecoder { palette: final(self).palette, ..*old(self) }),
    {
        let mut i: usize = self.palette.len();
        while i > 0
            invariant
                0 <= i <= self.palette@.len(),
                *self == *old(self),
                forall|j: int| i <= j < self.palette@.len() ==> #[trigger] self.palette@[j].0 != index,
            decreases i,
        {
            if self.palette[i - 1].0 == index {
                let ghost p = self.palette@;
                self.palette.set(i - 1, (index, color));
                proof {
                    assert forall|k: u16| k != index implies #[trigger] palette_get(self.palette@, k) == palette_get(p, k) by {
                        lemma_palette_update(p, i - 1, index, color, k);
                    }
                    lemma_palette_update(p, i - 1, index, color, index);
                }
                return;
            }
            i = i - 1;
        }
        let ghost p = self.palette@;
        self.palette.push((index, color));
        proof {
            assert(self.palette@.drop_last() =~= p);
        }
    }

    /// Put the default VT340 16-color palette in place.
    pub fn init_default_palette(&mut self)
        ensures
            forall|i: int| 0 <= i < 16 ==> #[trigger] palette_get(final(self).palette@, i as u16) == Some(default_sixel_color(i)),
            forall|k: u16| k >= 16 ==> #[trigger] palette_get(final(self).palette@, k) == palette_get(old(self).palette@, k),
            *final(self) == (SixelDecoder { palette: final(self).palette, ..*old(self) }),
    {
        let colors: [(u32, u32, u32); 16] = [
            (0, 0, 0), (20, 20, 80), (80, 13, 13), (20, 80, 20),
            (80, 20, 80), (20, 80, 80), (80, 80, 20), (53, 53, 53),
            (26, 26, 26), (33, 33, 100), (100, 26, 26), (33, 100, 33),
            (100, 33, 100), (33, 100, 100), (100, 100, 33), (80, 80, 80),
        ];
        let mut i: usize = 0;
        while i < 16
            invariant
                0 <= i <= 16,
                forall|j: int| 0 <= j < 16 ==> #[trigger] colors@[j] == (default_palette_percent(j).0 as u32,
                    default_palette_percent(j).1 as u32, default_palette_percent(j).2 as u32),
                forall|j: int| 0 <= j < i ==> #[trigger] palette_get(self.palette@, j as u16) == Some(default_sixel_color(j)),
                forall|k: u16| k >= i ==> #[trigger] palette_get(self.palette@, k) == palette_get(old(self).palette@, k),
                *self == (SixelDecoder { palette: self.palette, ..*old(self) }),
            decreases 16 - i,
        {
            let (r, g, b) = colors[i];
            let c = SixelColor::rgb((r * 255 / 100) as u8, (g * 255 / 100) as u8, (b * 255 / 100) as u8);
            self.set_palette_color(i as u16, c);
            i = i + 1;
        }
    }

    /// Decode a sixel data stream, byte by byte. The stream ends with the
    /// data: a color definition or raster attributes still being read at the
    /// end are applied then.
    pub fn decode(&mut self, data: &[u8]) -> (img: &SixelImage)
        requires
            old(self).wf(),
        ensures
            final(self).wf(),
            *img == final(self).image,
            final(self).state != DecodeState::ColorDef,
            final(self).state != DecodeState::Raster,
            data@.len() == 0 && old(self).state == DecodeState::Normal ==> *final(self) == *old(self),
            sixel_decoded(*old(self), data@, *final(self)),
    {
        let ghost mut tr: Seq<SixelDecoder> = seq![*self];
        let mut i: usize = 0;
        while i < data.len()
            invariant
                0 <= i <= data.len(),
                self.wf(),
                i == 0 ==> *self == *old(self),
                tr[0] == *old(self),
                tr.last() == *self,
                sixel_trace(tr, data@.take(i as int)),
            decreases data.len() - i,
        {
            let ghost prev = *self;
            self.process_byte(data[i]);
            proof {
                let t2 = tr.push(*self);
                let d2 = data@.take(i + 1);
                assert forall|j: int| 0 <= j < d2.len() implies #[trigger] sixel_step(t2[j], d2[j], t2[j + 1]) by {
                    if j < i {
                        assert(sixel_step(tr[j], data@.take(i as int)[j], tr[j + 1]));
                    } else {
                        assert(t2[j] == prev);
                    }
                }
                tr = t2;
            }
            i = i + 1;
        }
        assert(data@.take(i as int) =~= data@);
        let ghost last = *self;
        match self.state {
            DecodeState::ColorDef => {
                self.params.push(self.current_param);
                let ghost m = *self;
                assert(param_pushed(last, m));
                self.finish_color_def();
                let ghost f = *self;
                assert(params_ended(last, true, f));
                self.state = DecodeState::Normal;
            },
            DecodeState::Raster => {
                self.params.push(self.current_param);
                let ghost m = *self;
                assert(param_pushed(last, m));
                self.finish_raster();
                let ghost f = *self;
                assert(params_ended(last, false, f));
                self.state = DecodeState::Normal;
            },
            _ => {},
        }
        assert(stream_ended(last, *self));
        assert(sixel_trace(tr, data@));
        &self.image
    }

    /// Process a single byte.
    fn process_byte(&mut self, byte: u8)
        requires
            old(self).wf(),
        ensures
            final(self).wf(),
            sixel_step(*old(self), byte, *final(self)),
    {
        match self.state {
            DecodeState::Normal => self.process_normal(byte),
            DecodeState::Repeat => self.process_repeat(byte),
            DecodeState::ColorDef => self.process_color_def(byte),
            DecodeState::Raster => self.process_raster(byte),
        }
    }

    /// A byte in the normal state: sixel data `?`..`~` draws (with the
    /// pending repeat count), `$` returns to the line start, `-` goes to the
    /// next sixel row, `!`, `#` and `"` start a repeat count, a color and
    /// raster attributes; anything else is ignored.
    fn process_normal(&mut self, byte: u8)
        requires
            old(self).wf(),
        ensures
            final(self).wf(),
            0x3f <= byte <= 0x7e ==> final(self).repeat_count == 1
                && final(self).x as int == sat_add_u32(old(self).x as int, old(self).repeat_count as int)
                && final(self).y == old(self).y && final(self).state == old(self).state,
            byte == 0x24 ==> *final(self) == (SixelDecoder { x: 0, ..*old(self) }),
            byte == 0x2d ==> *final(self) == (SixelDecoder { x: 0, y: sat_add_u32(old(self).y as int, 1) as u32, ..*old(self) }),
            byte == 0x21 ==> *final(self) == (SixelDecoder { state: DecodeState::Repeat, current_param: 0, ..*old(self) }),
            byte == 0x23 ==> final(self).state == DecodeState::ColorDef && final(self).params@.len() == 0 && final(self).current_param == 0
                && *final(self) == (SixelDecoder { state: final(self).state, params: final(self).params, current_param: 0, ..*old(self) }),
            byte == 0x22 ==> final(self).state == DecodeState::Raster && final(self).params@.len() == 0 && final(self).current_param == 0
                && *final(self) == (SixelDecoder { state: final(self).state, params: final(self).params, current_param: 0, ..*old(self) }),
            !(0x3f <= byte <= 0x7e || byte == 0x24 || byte == 0x2d || byte == 0x21 || byte == 0x23 || byte == 0x22) ==> *final(self) == *old(self),
            normal_step(*old(self), byte, *final(self)),
    {
        if 0x3f <= byte && byte <= 0x7e {
            let sixel = byte - 0x3f;
            let repeat = self.repeat_count;
            self.draw_sixel(sixel, repeat);
            self.repeat_count = 1;
        } else if byte == 0x24 {
            self.x = 0;
        } else if byte == 0x2d {
            self.x = 0;
            self.y = self.y.saturating_add(1);
        } else if byte == 0x21 {
            self.state = DecodeState::Repeat;
            self.current_param = 0;
        } else if byte == 0x23 {
            self.state = DecodeState::ColorDef;
            self.params.clear();
            self.current_param = 0;
        } else if byte == 0x22 {
            self.state = DecodeState::Raster;
            self.params.clear();
            self.current_param = 0;
        }
    }

    /// A byte of a repeat count: digits accumulate (saturating); any other
    /// byte ends the count (0 counts as 1) and is handled in the normal state.
    fn process_repeat(&mut self, byte: u8)
        requires
            old(self).wf(),
        ensures
            final(self).wf(),
            0x30 <= byte <= 0x39 ==> *final(self) == (SixelDecoder {
                current_param: crate::ansi::parser::accumulate_digit(old(self).current_param, (byte - 0x30) as u8), ..*old(self) }),
            repeat_step(*old(self), byte, *final(self)),
    {
        if 0x30 <= byte && byte <= 0x39 {
            self.current_param = crate::ansi::parser::accumulate(self.current_param, byte - 0x30);
        } else {
            self.repeat_count = self.current_param as u32;
            if self.repeat_count == 0 {
                self.repeat_count = 1;
            }
            self.state = DecodeState::Normal;
            self.process_normal(byte);
        }
    }

    /// A byte of a color definition: digits accumulate, `;` ends a
    /// parameter, anything else ends the definition (a sixel byte is then
    /// drawn).
    fn process_color_def(&mut self, byte: u8)
        requires
            old(self).wf(),
        ensures
            final(self).wf(),
            0x30 <= byte <= 0x39 ==> *final(self) == (SixelDecoder {
                current_param: crate::ansi::parser::accumulate_digit(old(self).current_param, (byte - 0x30) as u8), ..*old(self) }),
            byte == 0x3b ==> final(self).params@ == old(self).params@.push(old(self).current_param)
                && *final(self) == (SixelDecoder { params: final(self).params, current_param: 0, ..*old(self) }),
            color_def_step(*old(self), byte, *final(self)),
    {
        if 0x30 <= byte && byte <= 0x39 {
            self.current_param = crate::ansi::parser::accumulate(self.current_param, byte - 0x30);
        } else if byte == 0x3b {
            self.params.push(self.current_param);
            self.current_param = 0;
        } else {
            self.params.push(self.current_param);
            let ghost m = *self;
            assert(param_pushed(*old(self), m));
            self.finish_color_def();
            let ghost f = *self;
            assert(params_ended(*old(self), true, f));
            self.state = DecodeState::Normal;
            if byte >= 0x3f && byte <= 0x7e {
                self.process_normal(byte);
            }
        }
    }

    /// A byte of raster attributes: digits accumulate, `;` ends a
    /// parameter, anything else ends the attributes (and is dropped).
    fn process_raster(&mut self, byte: u8)
        requires
            old(self).wf(),
        ensures
            final(self).wf(),
            0x30 <= byte <= 0x39 ==> *final(self) == (SixelDecoder {
                current_param: crate::ansi::parser::accumulate_digit(old(self).current_param, (byte - 0x30) as u8), ..*old(self) }),
            byte == 0x3b ==> final(self).params@ == old(self).params@.push(old(self).current_param)
                && *final(self) == (SixelDecoder { params: final(self).params, current_param: 0, ..*old(self) }),
            !(0x30 <= byte <= 0x39 || byte == 0x3b) ==> final(self).state == DecodeState::Normal,
            raster_step(*old(self), byte, *final(self)),
    {
        if 0x30 <= byte && byte <= 0x39 {
            self.current_param = crate::ansi::parser::accumulate(self.current_param, byte - 0x30);
        } else if byte == 0x3b {
            self.params.push(self.current_param);
            self.current_param = 0;
        } else {
            self.params.push(self.current_param);
            let ghost m = *self;
            assert(param_pushed(*old(self), m));
            self.finish_raster();
            let ghost f = *self;
            assert(params_ended(*old(self), false, f));
            self.state = DecodeState::Normal;
        }
    }

    /// Finish a color definition: one parameter selects a color; five or
    /// more define color `params[0]` (HLS for type 1, else RGB percent) and
    /// select it.
    fn finish_color_def(&mut self)
        ensures
            old(self).params@.len() == 1 ==> *final(self) == (SixelDecoder { current_color: old(self).params@[0], ..*old(self) }),
            old(self).params@.len() >= 5 ==> {
                let p = old(self).params@;
                let color = if p[1] == 1 { hls_value(p[2], p[3], p[4]) } else { percent_color(p[2], p[3], p[4]) };
                &&& final(self).current_color == p[0]
                &&& palette_get(final(self).palette@, p[0]) == Some(color)
                &&& forall|k: u16| k != p[0] ==> #[trigger] palette_get(final(self).palette@, k) == palette_get(old(self).palette@, k)
                &&& *final(self) == (SixelDecoder { palette: final(self).palette, current_color: p[0], ..*old(self) })
            },
            (old(self).params@.len() == 0 || (2 <= old(self).params@.len() < 5)) ==> *final(self) == *old(self),
            color_finished(*old(self), *final(self)),
    {
        if self.params.len() == 0 {
            return;
        }
        let color_idx = self.params[0];
        if self.params.len() == 1 {
            self.current_color = color_idx;
        } else if self.params.len() >= 5 {
            let color_type = self.params[1];
            let p1 = self.params[2];
            let p2 = self.params[3];
            let p3 = self.params[4];
            let color = if color_type == 1 {
                SixelColor::from_hls(p1, p2, p3)
            } else {
                SixelColor::rgb(
                    ((p1 as u32 * 255 / 100) % 256) as u8,
                    ((p2 as u32 * 255 / 100) % 256) as u8,
                    ((p3 as u32 * 255 / 100) % 256) as u8,
                )
            };
            self.set_palette_color(color_idx, color);
            self.current_color = color_idx;
        }
    }

    /// Finish raster attributes `Pan;Pad;Ph;Pv`: aspect ratio (each at
    /// least 1) and, when both are positive, grow the image to `Ph` x `Pv`.
    fn finish_raster(&mut self)
        requires
            old(self).wf(),
        ensures
            final(self).wf(),
            old(self).params@.len() >= 4 ==> {
                let p = old(self).params@;
                &&& final(self).aspect_num == (if p[0] >= 1 { p[0] } else { 1 })
                &&& final(self).aspect_den == (if p[1] >= 1 { p[1] } else { 1 })
                &&& ({
                    let w = if p[2] > old(self).image.width { p[2] as int } else { old(self).image.width as int };
                    let h = if p[3] > old(self).image.height { p[3] as int } else { old(self).image.height as int };
                    (p[2] > 0 && p[3] > 0 && (p[2] > old(self).image.width || p[3] > old(self).image.height) && w * h * 4 <= u32::MAX) ==>
                        final(self).image.width == w && final(self).image.height == h
                })
            },
            old(self).params@.len() < 4 ==> *final(self) == *old(self),
            raster_finished(*old(self), *final(self)),
    {
        if self.params.len() >= 4 {
            self.aspect_num = if self.params[0] >= 1 { self.params[0] } else { 1 };
            self.aspect_den = if self.params[1] >= 1 { self.params[1] } else { 1 };
            let width = self.params[2] as u32;
            let height = self.params[3] as u32;
            if width > 0 && height > 0 {
                self.image.resize(width, height);
            }
        }
    }

    /// Draw a sixel (6 vertical pixels, bit 0 at the top) `repeat` times in
    /// the current color (white when undefined), growing the image as
    /// needed, then move right by `repeat`.
    fn draw_sixel(&mut self, sixel: u8, repeat: u32)
        requires
            old(self).wf(),
        ensures
            final(self).wf(),
            final(self).x as int == sat_add_u32(old(self).x as int, repeat as int),
            *final(self) == (SixelDecoder { image: final(self).image, x: final(self).x, ..*old(self) }),
            sixel_drawn(*old(self), sixel, repeat, *final(self)),
    {
        let color = match self.palette_color(self.current_color) {
            Some(c) => c,
            None => SixelColor::rgb(255, 255, 255),
        };
        assert(color == sixel_color(*old(self)));
        let base_y: u32 = if self.y > 0x2aaa_aaa9 { u32::MAX } else { self.y * 6 };
        let needed_width = self.x.saturating_add(repeat);
        let needed_height = base_y.saturating_add(6);
        self.image.resize(needed_width, needed_height);
        let ghost size = (self.image.width, self.image.height);
        assert(base_y == sixel_top(old(self).y));
        assert(size == grown_size(old(self).image.width, old(self).image.height, sat_add_u32(old(self).x as int, repeat as int) as u32,
            sat_add_u32(sixel_top(old(self).y) as int, 6) as u32));
        let ghost a = *old(self);
        let ghost w = size.0 as int;
        let ghost h = size.1 as int;
        proof {
            if h > 0 {
                assert(w * h * 4 <= u32::MAX);
                assert(w < u32::MAX) by (nonlinear_arith) requires w * h * 4 <= u32::MAX, h > 0, w >= 0;
            }
        }
        let mut dx: u32 = 0;
        while dx < repeat
            invariant
                0 <= dx <= repeat,
                self.image.wf(),
                *self == (SixelDecoder { image: self.image, ..*old(self) }),
                (self.image.width, self.image.height) == size,
                self.image.transparent == old(self).image.transparent,
                a == *old(self),
                w == size.0, h == size.1,
                h > 0 ==> w < u32::MAX,
                base_y == sixel_top(a.y),
                color == sixel_color(a),
                forall|px: int, py: int, k: int| 0 <= px < w && 0 <= py < h && 0 <= k < 4 ==>
                    #[trigger] self.image.data@[pixel_offset(w, px, py) + k] == (
                        if sixel_covers(a, sixel, dx as int, 0, px, py) { color_byte(color, k) }
                        else { grown_pixel(a.image, px, py, k) }),
            decreases repeat - dx,
        {
            let px = self.x.saturating_add(dx);
            let mut bit: u32 = 0;
            while bit < 6
                invariant
                    0 <= bit <= 6,
                    dx < repeat,
                    self.image.wf(),
                    *self == (SixelDecoder { image: self.image, ..*old(self) }),
                    (self.image.width, self.image.height) == size,
                    self.image.transparent == old(self).image.transparent,
                    a == *old(self),
                    w == size.0, h == size.1,
                    h > 0 ==> w < u32::MAX,
                    base_y == sixel_top(a.y),
                    color == sixel_color(a),
                    px as int == sat_add_u32(a.x as int, dx as int),
                    forall|qx: int, qy: int, k: int| 0 <= qx < w && 0 <= qy < h && 0 <= k < 4 ==>
                        #[trigger] self.image.data@[pixel_offset(w, qx, qy) + k] == (
                            if sixel_covers(a, sixel, dx as int, bit as int, qx, qy) { color_byte(color, k) }
                            else { grown_pixel(a.image, qx, qy, k) }),
                decreases 6 - bit,
            {
                let ghost prev = self.image.data@;
                if (sixel >> (bit as u8)) & 1 != 0 {
                    let py = base_y.saturating_add(bit);
                    self.image.set_pixel(px, py, &color);
                    proof {
                        assert forall|qx: int, qy: int, k: int| 0 <= qx < w && 0 <= qy < h && 0 <= k < 4 implies
                            #[trigger] self.image.data@[pixel_offset(w, qx, qy) + k] == (
                                if sixel_covers(a, sixel, dx as int, bit + 1, qx, qy) { color_byte(color, k) }
                                else { grown_pixel(a.image, qx, qy, k) }) by {
                            lemma_offsets(w, h, w, h, qx, qy);
                            if px < w && py < h {
                                lemma_offsets(w, h, w, h, px as int, py as int);
                                if qx == px && qy == py {
                                    assert(sixel_covers(a, sixel, dx as int, bit + 1, qx, qy));
                                } else {
                                    lemma_offset_distinct(w, h, qx, qy, px as int, py as int, k);
                                    assert(self.image.data@[pixel_offset(w, qx, qy) + k] == prev[pixel_offset(w, qx, qy) + k]);
                                }
                            }
                        }
                    }
                } else {
                    proof {
                        assert forall|qx: int, qy: int, k: int| 0 <= qx < w && 0 <= qy < h && 0 <= k < 4 implies
                            #[trigger] self.image.data@[pixel_offset(w, qx, qy) + k] == (
                                if sixel_covers(a, sixel, dx as int, bit + 1, qx, qy) { color_byte(color, k) }
                                else { grown_pixel(a.image, qx, qy, k) }) by {
                            if qy == base_y + bit {
                                assert(((qy - base_y) as u8) == (bit as u8));
                            }
                        }
                    }
                }
                bit = bit + 1;
            }
            proof {
                assert forall|qx: int, qy: int, k: int| 0 <= qx < w && 0 <= qy < h && 0 <= k < 4 implies
                    #[trigger] self.image.data@[pixel_offset(w, qx, qy) + k] == (
                        if sixel_covers(a, sixel, dx + 1, 0, qx, qy) { color_byte(color, k) }
                        else { grown_pixel(a.image, qx, qy, k) }) by {
                    assert(sixel_covers(a, sixel, dx as int, 6, qx, qy) == sixel_covers(a, sixel, dx + 1, 0, qx, qy));
                }
            }
            dx = dx + 1;
        }
        self.x = self.x.saturating_add(repeat);
    }

    /// Reset for a new image (the palette stays).
    pub fn reset(&mut self)
        ensures
            final(self).wf(),
            final(self).current_color == 0,
            final(self).x == 0,
            final(self).y == 0,
            final(self).repeat_count == 1,
            final(self).state == DecodeState::Normal,
            final(self).params@.len() == 0,
            final(self).current_param == 0,
            final(self).image.width == 0,
            final(self).image.height == 0,
            final(self).palette == old(self).palette,
            final(self).aspect_num == old(self).aspect_num,
            final(self).aspect_den == old(self).aspect_den,
    {
        self.current_color = 0;
        self.x = 0;
        self.y = 0;
        self.repeat_count = 1;
        self.state = DecodeState::Normal;
        self.params.clear();
        self.current_param = 0;
        self.image = SixelImage::new();
    }

    /// The decoded image.
    pub fn image(&self) -> (img: &SixelImage)
        ensures *img == self.image,
    {
        &self.image
    }

    /// Take the decoded image, leaving an empty one.
    pub fn take_image(&mut self) -> (img: SixelImage)
        ensures
            img == old(self).image,
            final(self).image.width == 0,
            final(self).image.height == 0,
            final(self).wf(),
            *final(self) == (SixelDecoder { image: final(self).image, ..*old(self) }),
    {
        let mut out = SixelImage::new();
        std::mem::swap(&mut out, &mut self.image);
        out
    }
}

/// `a + b` capped at `u32::MAX`.
pub open spec fn sat_add_u32(a: int, b: int) -> int {
    if a + b > u32::MAX { u32::MAX as int } else { a + b }
}

/// The size an image of `w` x `h` takes when grown to hold `nw` x `nh`
/// (`resize`): unchanged when it already does, or when the grown image
/// would not fit in 32-bit sizes.
pub open spec fn grown_size(w: u32, h: u32, nw: u32, nh: u32) -> (u32, u32) {
    let gw = if nw > w { nw } else { w };
    let gh = if nh > h { nh } else { h };
    if (nw <= w && nh <= h) || gw * gh * 4 > u32::MAX { (w, h) } else { (gw, gh) }
}

/// The top pixel row of sixel row `y` (six pixels each), saturating.
pub open spec fn sixel_top(y: u32) -> u32 {
    if y > 0x2aaa_aaa9 { u32::MAX } else { (y * 6) as u32 }
}

/// The color sixels are drawn in: the current palette color, white when
/// undefined.
pub open spec fn sixel_color(d: SixelDecoder) -> SixelColor {
    match palette_get(d.palette@, d.current_color) {
        Some(c) => c,
        None => SixelColor { r: 255, g: 255, b: 255 },
    }
}

/// Byte `k` of an opaque pixel of color `c`.
pub open spec fn color_byte(c: SixelColor, k: int) -> u8 {
    if k == 0 { c.r } else if k == 1 { c.g } else if k == 2 { c.b } else { 255 }
}

/// Whether pixel (`px`, `py`) is among those a sixel sets, drawn at the
/// decoder's position: whole columns before `cols` columns from the
/// position, and the first `rows` rows of the column after; the rows of a
/// column are those whose bit is set in `sixel` (bit 0 at the top).
pub open spec fn sixel_covers(a: SixelDecoder, sixel: u8, cols: int, rows: int, px: int, py: int) -> bool {
    let top = sixel_top(a.y) as int;
    &&& top <= py
    &&& (sixel >> ((py - top) as u8)) & 1u8 != 0u8
    &&& ((a.x <= px < a.x + cols && py < top + 6) || (px == a.x + cols && py < top + rows))
}

/// `b` is `a` after one sixel is drawn `repeat` times (`draw_sixel`): the
/// image grown to hold the drawn columns and the six rows, the pixels the
/// sixel covers set to the current color, the position moved right by
/// `repeat`, nothing else changed.
pub open spec fn sixel_drawn(a: SixelDecoder, sixel: u8, repeat: u32, b: SixelDecoder) -> bool {
    let size = grown_size(a.image.width, a.image.height, sat_add_u32(a.x as int, repeat as int) as u32,
        sat_add_u32(sixel_top(a.y) as int, 6) as u32);
    &&& b.image.width == size.0
    &&& b.image.height == size.1
    &&& b.image.transparent == a.image.transparent
    &&& b.x as int == sat_add_u32(a.x as int, repeat as int)
    &&& b == (SixelDecoder { image: b.image, x: b.x, ..a })
    &&& b.image.wf()
    &&& forall|px: int, py: int, k: int| 0 <= px < b.image.width && 0 <= py < b.image.height && 0 <= k < 4 ==>
        #[trigger] b.image.data@[pixel_offset(b.image.width as int, px, py) + k] == (
            if sixel_covers(a, sixel, repeat as int, 0, px, py) { color_byte(sixel_color(a), k) }
            else { grown_pixel(a.image, px, py, k) })
}

/// A byte in the normal state (`process_normal`).
pub open spec fn normal_step(a: SixelDecoder, byte: u8, b: SixelDecoder) -> bool {
    &&& 0x3f <= byte <= 0x7e ==> b.repeat_count == 1
        && sixel_drawn(a, (byte - 0x3f) as u8, a.repeat_count, SixelDecoder { repeat_count: a.repeat_count, ..b })
    &&& byte == 0x24 ==> b == (SixelDecoder { x: 0, ..a })
    &&& byte == 0x2d ==> b == (SixelDecoder { x: 0, y: sat_add_u32(a.y as int, 1) as u32, ..a })
    &&& byte == 0x21 ==> b == (SixelDecoder { state: DecodeState::Repeat, current_param: 0, ..a })
    &&& (byte == 0x23 || byte == 0x22) ==> {
        &&& b.state == (if byte == 0x23 { DecodeState::ColorDef } else { DecodeState::Raster })
        &&& b.params@.len() == 0
        &&& b == (SixelDecoder { state: b.state, params: b.params, current_param: 0, ..a })
    }
    &&& !(0x3f <= byte <= 0x7e || byte == 0x24 || byte == 0x2d || byte == 0x21 || byte == 0x23 || byte == 0x22) ==> b == a
}

/// A byte of a repeat count (`process_repeat`).
pub open spec fn repeat_step(a: SixelDecoder, byte: u8, b: SixelDecoder) -> bool {
    if 0x30 <= byte <= 0x39 {
        b == (SixelDecoder { current_param: crate::ansi::parser::accumulate_digit(a.current_param, (byte - 0x30) as u8), ..a })
    } else {
        normal_step(SixelDecoder {
            repeat_count: if a.current_param == 0 { 1 } else { a.current_param as u32 },
            state: DecodeState::Normal,
            ..a
        }, byte, b)
    }
}

/// `m` is `a` with the parameter being read added to the parameters.
pub open spec fn param_pushed(a: SixelDecoder, m: SixelDecoder) -> bool {
    &&& m.params@ == a.params@.push(a.current_param)
    &&& m == (SixelDecoder { params: m.params, ..a })
}

/// A color definition finished (`finish_color_def`).
pub open spec fn color_finished(a: SixelDecoder, b: SixelDecoder) -> bool {
    &&& a.params@.len() == 1 ==> b == (SixelDecoder { current_color: a.params@[0], ..a })
    &&& a.params@.len() >= 5 ==> {
        let p = a.params@;
        let color = if p[1] == 1 { hls_value(p[2], p[3], p[4]) } else { percent_color(p[2], p[3], p[4]) };
        &&& b.current_color == p[0]
        &&& palette_get(b.palette@, p[0]) == Some(color)
        &&& forall|k: u16| k != p[0] ==> #[trigger] palette_get(b.palette@, k) == palette_get(a.palette@, k)
        &&& b == (SixelDecoder { palette: b.palette, current_color: p[0], ..a })
    }
    &&& (a.params@.len() == 0 || (2 <= a.params@.len() < 5)) ==> b == a
}

/// Raster attributes finished (`finish_raster`).
pub open spec fn raster_finished(a: SixelDecoder, b: SixelDecoder) -> bool {
    &&& a.params@.len() >= 4 ==> {
        let p = a.params@;
        &&& b.aspect_num == (if p[0] >= 1 { p[0] } else { 1 })
        &&& b.aspect_den == (if p[1] >= 1 { p[1] } else { 1 })
        &&& (p[2] > 0 && p[3] > 0) ==> {
            &&& (b.image.width, b.image.height) == grown_size(a.image.width, a.image.height, p[2] as u32, p[3] as u32)
            &&& b.image.transparent == a.image.transparent
            &&& b.image.wf()
            &&& forall|x: int, y: int, k: int| 0 <= x < b.image.width && 0 <= y < b.image.height && 0 <= k < 4 ==>
                #[trigger] b.image.data@[pixel_offset(b.image.width as int, x, y) + k] == grown_pixel(a.image, x, y, k)
        }
        &&& !(p[2] > 0 && p[3] > 0) ==> b.image == a.image
        &&& b == (SixelDecoder { aspect_num: b.aspect_num, aspect_den: b.aspect_den, image: b.image, ..a })
    }
    &&& a.params@.len() < 4 ==> b == a
}

/// The parameter being read is added and the color definition (`color`) or
/// raster attributes (otherwise) finished, back in the normal state: `f` is
/// the decoder just before it returns to it.
pub open spec fn params_ended(a: SixelDecoder, color: bool, f: SixelDecoder) -> bool {
    exists|m: SixelDecoder| #[trigger] param_pushed(a, m) && (if color { color_finished(m, f) } else { raster_finished(m, f) })
}

/// A byte of a color definition (`process_color_def`).
pub open spec fn color_def_step(a: SixelDecoder, byte: u8, b: SixelDecoder) -> bool {
    if 0x30 <= byte <= 0x39 {
        b == (SixelDecoder { current_param: crate::ansi::parser::accumulate_digit(a.current_param, (byte - 0x30) as u8), ..a })
    } else if byte == 0x3b {
        b.params@ == a.params@.push(a.current_param) && b == (SixelDecoder { params: b.params, current_param: 0, ..a })
    } else if 0x3f <= byte <= 0x7e {
        exists|f: SixelDecoder| #[trigger] params_ended(a, true, f) && normal_step(SixelDecoder { state: DecodeState::Normal, ..f }, byte, b)
    } else {
        exists|f: SixelDecoder| #[trigger] params_ended(a, true, f) && b == (SixelDecoder { state: DecodeState::Normal, ..f })
    }
}

/// A byte of raster attributes (`process_raster`).
pub open spec fn raster_step(a: SixelDecoder, byte: u8, b: SixelDecoder) -> bool {
    if 0x30 <= byte <= 0x39 {
        b == (SixelDecoder { current_param: crate::ansi::parser::accumulate_digit(a.current_param, (byte - 0x30) as u8), ..a })
    } else if byte == 0x3b {
        b.params@ == a.params@.push(a.current_param) && b == (SixelDecoder { params: b.params, current_param: 0, ..a })
    } else {
        exists|f: SixelDecoder| #[trigger] params_ended(a, false, f) && b == (SixelDecoder { state: DecodeState::Normal, ..f })
    }
}

/// One byte of sixel data, in whatever state the decoder is (`process_byte`).
pub open spec fn sixel_step(a: SixelDecoder, byte: u8, b: SixelDecoder) -> bool {
    match a.state {
        DecodeState::Normal => normal_step(a, byte, b),
        DecodeState::Repeat => repeat_step(a, byte, b),
        DecodeState::ColorDef => color_def_step(a, byte, b),
        DecodeState::Raster => raster_step(a, byte, b),
    }
}

/// Each state of `tr` is the one before it after the next byte of `data`.
pub open spec fn sixel_trace(tr: Seq<SixelDecoder>, data: Seq<u8>) -> bool {
    &&& tr.len() == data.len() + 1
    &&& forall|i: int| 0 <= i < data.len() ==> #[trigger] sixel_step(tr[i], data[i], tr[i + 1])
}

/// The end of the data: a color definition or raster attributes still
/// being read are finished.
pub open spec fn stream_ended(a: SixelDecoder, b: SixelDecoder) -> bool {
    match a.state {
        DecodeState::ColorDef => exists|f: SixelDecoder| #[trigger] params_ended(a, true, f) && b == (SixelDecoder { state: DecodeState::Normal, ..f }),
        DecodeState::Raster => exists|f: SixelDecoder| #[trigger] params_ended(a, false, f) && b == (SixelDecoder { state: DecodeState::Normal, ..f }),
        _ => b == a,
    }
}

/// Decoding `data` (`decode`) leads from `a` to `b`.
pub open spec fn sixel_decoded(a: SixelDecoder, data: Seq<u8>, b: SixelDecoder) -> bool {
    exists|tr: Seq<SixelDecoder>| {
        &&& tr[0] == a
        &&& #[trigger] sixel_trace(tr, data)
        &&& stream_ended(tr.last(), b)
    }
}

/// A decoder as `new` makes it.
pub open spec fn fresh_decoder(d: SixelDecoder) -> bool {
    &&& d.wf()
    &&& forall|i: int| 0 <= i < 16 ==> #[trigger] palette_get(d.palette@, i as u16) == Some(default_sixel_color(i))
    &&& forall|i: u16| i >= 16 ==> #[trigger] palette_get(d.palette@, i).is_none()
    &&& d.current_color == 0
    &&& d.x == 0
    &&& d.y == 0
    &&& d.aspect_num == 1
    &&& d.aspect_den == 1
    &&& d.state == DecodeState::Normal
    &&& d.params@.len() == 0
    &&& d.current_param == 0
    &&& d.repeat_count == 1
    &&& d.image.width == 0
    &&& d.image.height == 0
    &&& !d.image.transparent
}

/// Two images with the same pixels.
pub open spec fn same_image(a: SixelImage, b: SixelImage) -> bool {
    &&& a.width == b.width
    &&& a.height == b.height
    &&& a.transparent == b.transparent
    &&& a.data@ == b.data@
}

/// Two decoders in the same state as far as decoding goes: the image, the
/// position, the parse state and parameters, the current color and the
/// colors the palette gives.
pub open spec fn same_course(a: SixelDecoder, b: SixelDecoder) -> bool {
    &&& same_image(a.image, b.image)
    &&& a.image.wf()
    &&& b.image.wf()
    &&& a.x == b.x
    &&& a.y == b.y
    &&& a.state == b.state
    &&& a.params@ == b.params@
    &&& a.current_param == b.current_param
    &&& a.repeat_count == b.repeat_count
    &&& a.current_color == b.current_color
    &&& a.aspect_num == b.aspect_num
    &&& a.aspect_den == b.aspect_den
    &&& forall|k: u16| #[trigger] palette_get(a.palette@, k) == palette_get(b.palette@, k)
}

/// Images of one size that agree on every pixel hold the same bytes.
proof fn lemma_pixels_determine(a: SixelImage, b: SixelImage)
    requires
        a.wf(),
        b.wf(),
        a.width == b.width,
        a.height == b.height,
        forall|x: int, y: int, k: int| 0 <= x < a.width && 0 <= y < a.height && 0 <= k < 4 ==>
            #[trigger] a.data@[pixel_offset(a.width as int, x, y) + k] == b.data@[pixel_offset(a.width as int, x, y) + k],
    ensures
        a.data@ == b.data@,
{
    let w = a.width as int;
    let h = a.height as int;
    assert forall|i: int| 0 <= i < a.data@.len() implies a.data@[i] == b.data@[i] by {
        let q = i / 4;
        let k = i % 4;
        assert(i == 4 * q + k);
        assert(0 <= q < w * h);
        assert(w > 0) by (nonlinear_arith) requires 0 <= q < w * h, h >= 0, w >= 0;
        let x = q % w;
        let y = q / w;
        vstd::arithmetic::div_mod::lemma_fundamental_div_mod(q, w);
        vstd::arithmetic::mul::lemma_mul_is_commutative(w, y);
        assert(0 <= x < w) by (nonlinear_arith) requires w > 0, x == q % w;
        assert(0 <= y < h) by (nonlinear_arith) requires w > 0, 0 <= q < w * h, y == q / w;
        assert(pixel_offset(w, x, y) + k == i);
        assert(a.data@[pixel_offset(w, x, y) + k] == b.data@[pixel_offset(w, x, y) + k]);
    }
    assert(a.data@ =~= b.data@);
}

proof fn lemma_grown_same(a: SixelImage, b: SixelImage, x: int, y: int, k: int)
    requires
        same_image(a, b),
    ensures
        grown_pixel(a, x, y, k) == grown_pixel(b, x, y, k),
{
}

proof fn lemma_drawn_det(a1: SixelDecoder, a2: SixelDecoder, sixel: u8, repeat: u32, b1: SixelDecoder, b2: SixelDecoder)
    requires
        same_course(a1, a2),
        sixel_drawn(a1, sixel, repeat, b1),
        sixel_drawn(a2, sixel, repeat, b2),
    ensures
        same_course(b1, b2),
{
    assert(sixel_color(a1) == sixel_color(a2));
    assert forall|x: int, y: int, k: int| 0 <= x < b1.image.width && 0 <= y < b1.image.height && 0 <= k < 4 implies
        #[trigger] b1.image.data@[pixel_offset(b1.image.width as int, x, y) + k]
            == b2.image.data@[pixel_offset(b1.image.width as int, x, y) + k] by {
        lemma_grown_same(a1.image, a2.image, x, y, k);
        assert(sixel_covers(a1, sixel, repeat as int, 0, x, y) == sixel_covers(a2, sixel, repeat as int, 0, x, y));
    }
    lemma_pixels_determine(b1.image, b2.image);
}

proof fn lemma_normal_det(a1: SixelDecoder, a2: SixelDecoder, byte: u8, b1: SixelDecoder, b2: SixelDecoder)
    requires
        same_course(a1, a2),
        normal_step(a1, byte, b1),
        normal_step(a2, byte, b2),
    ensures
        same_course(b1, b2),
{
    if 0x3f <= byte <= 0x7e {
        lemma_drawn_det(a1, a2, (byte - 0x3f) as u8, a1.repeat_count,
            SixelDecoder { repeat_count: a1.repeat_count, ..b1 }, SixelDecoder { repeat_count: a2.repeat_count, ..b2 });
    } else if byte == 0x23 || byte == 0x22 {
        assert(b1.params@ =~= b2.params@);
    }
}

proof fn lemma_color_finished_det(a1: SixelDecoder, a2: SixelDecoder, b1: SixelDecoder, b2: SixelDecoder)
    requires
        same_course(a1, a2),
        color_finished(a1, b1),
        color_finished(a2, b2),
    ensures
        same_course(b1, b2),
{
    let p = a1.params@;
    if p.len() >= 5 {
        assert forall|k: u16| #[trigger] palette_get(b1.palette@, k) == palette_get(b2.palette@, k) by {
            if k != p[0] {
                assert(palette_get(b1.palette@, k) == palette_get(a1.palette@, k));
                assert(palette_get(b2.palette@, k) == palette_get(a2.palette@, k));
            }
        }
    }
}

proof fn lemma_raster_finished_det(a1: SixelDecoder, a2: SixelDecoder, b1: SixelDecoder, b2: SixelDecoder)
    requires
        same_course(a1, a2),
        raster_finished(a1, b1),
        raster_finished(a2, b2),
    ensures
        same_course(b1, b2),
{
    let p = a1.params@;
    if p.len() >= 4 && p[2] > 0 && p[3] > 0 {
        assert forall|x: int, y: int, k: int| 0 <= x < b1.image.width && 0 <= y < b1.image.height && 0 <= k < 4 implies
            #[trigger] b1.image.data@[pixel_offset(b1.image.width as int, x, y) + k]
                == b2.image.data@[pixel_offset(b1.image.width as int, x, y) + k] by {
            lemma_grown_same(a1.image, a2.image, x, y, k);
        }
        lemma_pixels_determine(b1.image, b2.image);
    }
}

proof fn lemma_params_ended_det(a1: SixelDecoder, a2: SixelDecoder, color: bool, f1: SixelDecoder, f2: SixelDecoder)
    requires
        same_course(a1, a2),
        params_ended(a1, color, f1),
        params_ended(a2, color, f2),
    ensures
        same_course(f1, f2),
{
    let m1 = choose|m: SixelDecoder| #[trigger] param_pushed(a1, m) && (if color { color_finished(m, f1) } else { raster_finished(m, f1) });
    let m2 = choose|m: SixelDecoder| #[trigger] param_pushed(a2, m) && (if color { color_finished(m, f2) } else { raster_finished(m, f2) });
    assert(same_course(m1, m2));
    if color {
        lemma_color_finished_det(m1, m2, f1, f2);
    } else {
        lemma_raster_finished_det(m1, m2, f1, f2);
    }
}

/// The same byte takes decoders in the same state to the same state.
proof fn lemma_sixel_step_det(a1: SixelDecoder, a2: SixelDecoder, byte: u8, b1: SixelDecoder, b2: SixelDecoder)
    requires
        same_course(a1, a2),
        sixel_step(a1, byte, b1),
        sixel_step(a2, byte, b2),
    ensures
        same_course(b1, b2),
{
    match a1.state {
        DecodeState::Normal => lemma_normal_det(a1, a2, byte, b1, b2),
        DecodeState::Repeat => {
            if !(0x30 <= byte <= 0x39) {
                let r = if a1.current_param == 0 { 1 } else { a1.current_param as u32 };
                lemma_normal_det(SixelDecoder { repeat_count: r, state: DecodeState::Normal, ..a1 },
                    SixelDecoder { repeat_count: r, state: DecodeState::Normal, ..a2 }, byte, b1, b2);
            }
        },
        DecodeState::ColorDef => {
            if 0x30 <= byte <= 0x39 {
            } else if byte == 0x3b {
            } else {
                let f1 = choose|f: SixelDecoder| #[trigger] params_ended(a1, true, f) && (if 0x3f <= byte <= 0x7e {
                    normal_step(SixelDecoder { state: DecodeState::Normal, ..f }, byte, b1) } else {
                    b1 == (SixelDecoder { state: DecodeState::Normal, ..f }) });
                let f2 = choose|f: SixelDecoder| #[trigger] params_ended(a2, true, f) && (if 0x3f <= byte <= 0x7e {
                    normal_step(SixelDecoder { state: DecodeState::Normal, ..f }, byte, b2) } else {
                    b2 == (SixelDecoder { state: DecodeState::Normal, ..f }) });
                lemma_params_ended_det(a1, a2, true, f1, f2);
                if 0x3f <= byte <= 0x7e {
                    lemma_normal_det(SixelDecoder { state: DecodeState::Normal, ..f1 },
                        SixelDecoder { state: DecodeState::Normal, ..f2 }, byte, b1, b2);
                }
            }
        },
        DecodeState::Raster => {
            if !(0x30 <= byte <= 0x39) && byte != 0x3b {
                let f1 = choose|f: SixelDecoder| #[trigger] params_ended(a1, false, f) && b1 == (SixelDecoder { state: DecodeState::Normal, ..f });
                let f2 = choose|f: SixelDecoder| #[trigger] params_ended(a2, false, f) && b2 == (SixelDecoder { state: DecodeState::Normal, ..f });
                lemma_params_ended_det(a1, a2, false, f1, f2);
            }
        },
    }
}

proof fn lemma_stream_ended_det(a1: SixelDecoder, a2: SixelDecoder, b1: SixelDecoder, b2: SixelDecoder)
    requires
        same_course(a1, a2),
        stream_ended(a1, b1),
        stream_ended(a2, b2),
    ensures
        same_course(b1, b2),
{
    if a1.state == DecodeState::ColorDef || a1.state == DecodeState::Raster {
        let color = a1.state == DecodeState::ColorDef;
        let f1 = choose|f: SixelDecoder| #[trigger] params_ended(a1, color, f) && b1 == (SixelDecoder { state: DecodeState::Normal, ..f });
        let f2 = choose|f: SixelDecoder| #[trigger] params_ended(a2, color, f) && b2 == (SixelDecoder { state: DecodeState::Normal, ..f });
        lemma_params_ended_det(a1, a2, color, f1, f2);
    }
}

proof fn lemma_trace_det(t1: Seq<SixelDecoder>, t2: Seq<SixelDecoder>, data: Seq<u8>, n: int)
    requires
        sixel_trace(t1, data),
        sixel_trace(t2, data),
        same_course(t1[0], t2[0]),
        0 <= n <= data.len(),
    ensures
        same_course(t1[n], t2[n]),
    decreases n,
{
    if n > 0 {
        lemma_trace_det(t1, t2, data, n - 1);
        let i = n - 1;
        assert(sixel_step(t1[i], data[i], t1[i + 1]));
        assert(sixel_step(t2[i], data[i], t2[i + 1]));
        lemma_sixel_step_det(t1[i], t2[i], data[i], t1[i + 1], t2[i + 1]);
    }
}

/// Decoding the same data from decoders in the same state ends in the same
/// state: the decoded image is a function of the data.
pub proof fn law_sixel_decoding_determined(a1: SixelDecoder, a2: SixelDecoder, data: Seq<u8>, b1: SixelDecoder, b2: SixelDecoder)
    requires
        same_course(a1, a2),
        sixel_decoded(a1, data, b1),
        sixel_decoded(a2, data, b2),
    ensures
        same_course(b1, b2),
{
    let t1 = choose|tr: Seq<SixelDecoder>| tr[0] == a1 && #[trigger] sixel_trace(tr, data) && stream_ended(tr.last(), b1);
    let t2 = choose|tr: Seq<SixelDecoder>| tr[0] == a2 && #[trigger] sixel_trace(tr, data) && stream_ended(tr.last(), b2);
    lemma_trace_det(t1, t2, data, data.len() as int);
    assert(t1.last() == t1[data.len() as int]);
    assert(t2.last() == t2[data.len() as int]);
    lemma_stream_ended_det(t1.last(), t2.last(), b1, b2);
}

/// Fresh decoders are in the same state.
pub proof fn lemma_fresh_same(a: SixelDecoder, b: SixelDecoder)
    requires
        fresh_decoder(a),
        fresh_decoder(b),
    ensures
        same_course(a, b),
{
    assert(a.image.data@ =~= b.image.data@);
    assert(a.params@ =~= b.params@);
    assert forall|k: u16| #[trigger] palette_get(a.palette@, k) == palette_get(b.palette@, k) by {
        if k < 16 {
            assert(palette_get(a.palette@, k as int as u16) == Some(default_sixel_color(k as int)));
            assert(palette_get(b.palette@, k as int as u16) == Some(default_sixel_color(k as int)));
        }
    }
}



/// A color definition `#Pc;2;Pr;Pg;Pb` (finished by `finish_color_def`)
/// gives palette entry `Pc` the color whose red, green and blue come from
/// `Pr`, `Pg` and `Pb` in that order, each scaled from percent to 0-255
/// (`P * 255 / 100`, kept to a byte), and selects it; the other entries stay.
pub proof fn law_rgb_color_definition(a: SixelDecoder, b: SixelDecoder)
    requires
        color_finished(a, b),
        a.params@.len() >= 5,
        a.params@[1] == 2,
    ensures ({
        let p = a.params@;
        &&& palette_get(b.palette@, p[0]) == Some(SixelColor {
            r: ((p[2] as int * 255 / 100) % 256) as u8,
            g: ((p[3] as int * 255 / 100) % 256) as u8,
            b: ((p[4] as int * 255 / 100) % 256) as u8,
        })
        &&& b.current_color == p[0]
        &&& forall|k: u16| k != p[0] ==> #[trigger] palette_get(b.palette@, k) == palette_get(a.palette@, k)
    }),
{
}

/// Channels scale independently: a definition with 100% in one channel and
/// 0% in the others is full intensity in that channel only.
pub proof fn law_rgb_channels_independent(a: SixelDecoder, b: SixelDecoder)
    requires
        color_finished(a, b),
        a.params@.len() >= 5,
        a.params@[1] == 2,
        a.params@[2] == 0,
        a.params@[3] == 100,
        a.params@[4] == 0,
    ensures
        palette_get(b.palette@, a.params@[0]) == Some(SixelColor { r: 0, g: 255, b: 0 }),
{
    law_rgb_color_definition(a, b);
}

} // verus!

use vstd::prelude::*;
use vstd::arithmetic::div_mod::lemma_fundamental_div_mod_converse;
use crate::resources::{ResourceID, ResourceScope, ResourceType};
use crate::text::owned;

verus! {

/// A handle for a ttf font: its globally shared resource id, and the path and
/// side length (in pixels) of its texture atlas.
pub struct Font {
    id: ResourceID,
    path: String,
    atlas_size: u32,
}

impl Font {
    /// The path of the font file.
    pub closed spec fn spec_path(&self) -> Seq<char> {
        self.path@
    }

    /// The side length of the font's atlas.
    pub closed spec fn spec_atlas_size(&self) -> u32 {
        self.atlas_size
    }

    /// The id of a font is the globally shared font resource keyed by its path.
    #[verifier::type_invariant]
    closed spec fn id_matches_path(&self) -> bool {
        &&& self.id.key@ == self.path@
        &&& self.id.scope == ResourceScope::Global
        &&& self.id.r_type is Font
    }

    /// A font read from `path`, with a 1024 by 1024 atlas; its id is keyed by
    /// the path and shared globally.
    pub fn new(path: &str) -> (f: Self)
        ensures
            f.spec_path() == path@,
            f.spec_atlas_size() == 1024,
    {
        let id = ResourceID { key: owned(path), scope: ResourceScope::Global, r_type: ResourceType::Font };
        Font { id, path: owned(path), atlas_size: 1024 }
    }

    /// Get the id of this font: the globally shared font resource keyed by
    /// the font's path.
    pub fn get_id(&self) -> (id: ResourceID)
        ensures
            id.key@ == self.spec_path(),
            id.scope == ResourceScope::Global,
            id.r_type is Font,
    {
        proof {
            use_type_invariant(self);
        }
        self.id.duplicate()
    }

    /// Get the path of the font file.
    pub fn path(&self) -> (p: &String)
        ensures
            p@ == self.spec_path(),
    {
        &self.path
    }

    /// Get the side length of the font's atlas.
    pub fn atlas_size(&self) -> (n: u32)
        ensures
            n == self.spec_atlas_size(),
    {
        self.atlas_size
    }
}

/// The rasterized (and padded) bitmap of one character, row by row.
pub struct GlyphBitmap {
    pub ch: char,
    pub bitmap: Vec<u8>,
    pub width: u32,
    pub height: u32,
}

/// Where a character's bitmap was placed in a font atlas: its top left pixel.
pub struct GlyphPlacement {
    pub ch: char,
    pub x: u32,
    pub y: u32,
}

/// The packing cursor after placing `glyphs` on shelves: the next x, the top
/// of the current shelf, and the height of its tallest glyph.
pub open spec fn cursor(glyphs: Seq<GlyphBitmap>, spacing: int, size: int) -> (int, int, int)
    decreases glyphs.len(),
{
    if glyphs.len() == 0 {
        (0, 0, 0)
    } else {
        let prev = cursor(glyphs.drop_last(), spacing, size);
        let g = glyphs.last();
        let wrap = prev.0 + g.width + spacing > size;
        let x = if wrap { 0 } else { prev.0 };
        let y = if wrap { prev.1 + prev.2 + spacing } else { prev.1 };
        let row = if wrap { 0 } else { prev.2 };
        (x + g.width + spacing, y, if row >= g.height { row } else { g.height as int })
    }
}

/// Where glyph `k` is placed: after the glyphs before it, on the current
/// shelf if it fits in the width (with `spacing` after it), else at the left
/// of a new shelf below the tallest glyph of the current one (and `spacing`).
pub open spec fn placement(glyphs: Seq<GlyphBitmap>, k: int, spacing: int, size: int) -> (int, int) {
    let prev = cursor(glyphs.take(k), spacing, size);
    let g = glyphs[k];
    if prev.0 + g.width + spacing > size {
        (0, prev.1 + prev.2 + spacing)
    } else {
        (prev.0, prev.1)
    }
}

/// The pixels `a` of an image `stride` pixels wide after the first `n`
/// pixels of the `bw` pixels wide bitmap `bm`, in row order, were written to
/// it at (`x`, `y`): pixel (r, c) of the bitmap goes to index
/// `(y + r) * stride + x + c`, so a bitmap row longer than what is left of
/// the image row runs on into the next image row.
pub open spec fn blit_prefix(a: Seq<u8>, bm: Seq<u8>, bw: int, x: int, y: int, stride: int, n: nat) -> Seq<u8>
    decreases n,
{
    if n == 0 || bw <= 0 {
        a
    } else {
        let k = n - 1;
        blit_prefix(a, bm, bw, x, y, stride, (n - 1) as nat).update((y + k / bw) * stride + x + k % bw, bm[k])
    }
}

/// The pixels `a` of an image `stride` pixels wide after all pixels of the
/// `bw` by `bh` bitmap `bm` were written to it at (`x`, `y`), row by row.
pub open spec fn blit(a: Seq<u8>, bm: Seq<u8>, bw: int, bh: int, x: int, y: int, stride: int) -> Seq<u8> {
    blit_prefix(a, bm, bw, x, y, stride, (bw * bh) as nat)
}

/// The pixels `a` of an image `stride` pixels wide, with the first `rows`
/// rows of the `bw` by `bh` bitmap `bm`, and the first `cols` pixels of its
/// next row, copied into the rectangle at (`x`, `y`).
pub open spec fn rect_upto(a: Seq<u8>, bm: Seq<u8>, bw: int, bh: int, x: int, y: int, stride: int, rows: int, cols: int) -> Seq<u8> {
    Seq::new(a.len(), |idx: int| {
        let r = idx / stride - y;
        let c = idx % stride - x;
        if 0 <= r < bh && 0 <= c < bw && (r < rows || (r == rows && c < cols)) {
            bm[r * bw + c]
        } else {
            a[idx]
        }
    })
}

/// The pixels `a` of an image `stride` pixels wide, with the `bw` by `bh`
/// bitmap `bm` copied into its rectangle at (`x`, `y`).
pub open spec fn blit_rect(a: Seq<u8>, bm: Seq<u8>, bw: int, bh: int, x: int, y: int, stride: int) -> Seq<u8> {
    rect_upto(a, bm, bw, bh, x, y, stride, bh, 0)
}

/// Writing the first `n` pixels of a bitmap that fits in the image row by row
/// fills its rectangle up to the `n`th pixel.
proof fn lemma_prefix_rect(a: Seq<u8>, bm: Seq<u8>, bw: int, bh: int, x: int, y: int, stride: int, n: nat)
    requires
        bw > 0,
        0 <= x,
        0 <= y,
        x + bw <= stride,
        (y + bh) * stride <= a.len(),
        n <= bw * bh,
    ensures
        blit_prefix(a, bm, bw, x, y, stride, n) == rect_upto(a, bm, bw, bh, x, y, stride, (n as int) / bw, (n as int) % bw),
    decreases n,
{
    if n == 0 {
        assert(rect_upto(a, bm, bw, bh, x, y, stride, 0, 0) =~= a);
    } else {
        let k = (n - 1) as nat;
        lemma_prefix_rect(a, bm, bw, bh, x, y, stride, k);
        vstd::arithmetic::div_mod::lemma_fundamental_div_mod(k as int, bw);
        vstd::arithmetic::div_mod::lemma_mod_pos_bound(k as int, bw);
        vstd::arithmetic::div_mod::lemma_div_pos_is_pos(k as int, bw);
        let r = (k as int) / bw;
        let c = (k as int) % bw;
        assert(k == r * bw + c) by {
            assert(bw * r == r * bw) by (nonlinear_arith);
        }
        assert(r < bh) by {
            if r >= bh {
                assert(r * bw >= bh * bw) by (nonlinear_arith) requires r >= bh, bw > 0;
                assert(bw * bh == bh * bw) by (nonlinear_arith);
            }
        }
        let (nr, nc) = if c + 1 < bw { (r, c + 1) } else { (r + 1, 0int) };
        assert(n == nr * bw + nc) by {
            if c + 1 >= bw {
                assert((r + 1) * bw == r * bw + bw) by (nonlinear_arith);
            }
        }
        lemma_fundamental_div_mod_converse(n as int, bw, nr, nc);
        let idx0 = (y + r) * stride + x + c;
        assert(0 <= (y + r) * stride) by (nonlinear_arith) requires y + r >= 0, stride >= 0;
        assert((y + r) * stride + stride <= (y + bh) * stride) by (nonlinear_arith)
            requires r + 1 <= bh, stride >= 0;
        assert(idx0 < a.len());
        lemma_fundamental_div_mod_converse(idx0, stride, y + r, x + c);
        let before = rect_upto(a, bm, bw, bh, x, y, stride, r, c);
        let after = rect_upto(a, bm, bw, bh, x, y, stride, nr, nc);
        assert forall|idx: int| 0 <= idx < a.len() implies #[trigger] after[idx] == before.update(idx0, bm[k as int])[idx] by {
            if idx != idx0 {
                let rr = idx / stride - y;
                let cc = idx % stride - x;
                if rr == r && cc == c {
                    vstd::arithmetic::div_mod::lemma_fundamental_div_mod(idx, stride);
                    assert(stride * (idx / stride) == (idx / stride) * stride) by (nonlinear_arith);
                    assert(idx == (y + r) * stride + x + c);
                }
            }
        }
        assert(after =~= before.update(idx0, bm[k as int]));
    }
}

/// A bitmap that fits within the image's width is copied into its rectangle:
/// writing it row by row gives the image with the rectangle at (`x`, `y`)
/// holding the bitmap and every other pixel unchanged.
pub proof fn law_blit_in_rectangle(a: Seq<u8>, bm: Seq<u8>, bw: int, bh: int, x: int, y: int, stride: int)
    requires
        0 <= bw,
        0 <= bh,
        0 <= x,
        0 <= y,
        x + bw <= stride,
        (y + bh) * stride <= a.len(),
    ensures
        blit(a, bm, bw, bh, x, y, stride) == blit_rect(a, bm, bw, bh, x, y, stride),
{
    if bw == 0 || bh == 0 {
        assert(bw * bh == 0) by (nonlinear_arith) requires bw == 0 || bh == 0;
        assert(blit_rect(a, bm, bw, bh, x, y, stride) =~= a);
    } else {
        assert(bw * bh >= 0) by (nonlinear_arith) requires bw > 0, bh > 0;
        lemma_prefix_rect(a, bm, bw, bh, x, y, stride, (bw * bh) as nat);
        assert(bh * bw == bw * bh) by (nonlinear_arith);
        lemma_fundamental_div_mod_converse(bw * bh, bw, bh, 0);
    }
}

/// The atlas after the bitmaps of `glyphs` were copied to their placements,
/// in order, into a blank `size` by `size` atlas.
pub open spec fn atlas_after(glyphs: Seq<GlyphBitmap>, spacing: int, size: int) -> Seq<u8>
    decreases glyphs.len(),
{
    if glyphs.len() == 0 {
        Seq::new((size * size) as nat, |i: int| 0u8)
    } else {
        let k = glyphs.len() - 1;
        let p = placement(glyphs, k, spacing, size);
        let g = glyphs[k];
        blit(atlas_after(glyphs.drop_last(), spacing, size), g.bitmap@, g.width as int, g.height as int, p.0, p.1, size)
    }
}

/// Glyph `k` can be placed: the cursor arithmetic stays within 32 bits, its
/// bitmap holds its pixels, and, if it has pixels, its last pixel, counted
/// row by row from where it is placed, lies within the `size` by `size`
/// atlas (a glyph wider than what is left of the atlas row runs on into the
/// next rows).
pub open spec fn glyph_fits(glyphs: Seq<GlyphBitmap>, k: int, spacing: int, size: int) -> bool {
    let prev = cursor(glyphs.take(k), spacing, size);
    let g = glyphs[k];
    let p = placement(glyphs, k, spacing, size);
    &&& prev.0 + g.width + spacing <= u32::MAX
    &&& prev.1 + prev.2 + spacing <= u32::MAX
    &&& p.0 + g.width + spacing <= u32::MAX
    &&& g.bitmap@.len() >= g.width * g.height
    &&& (g.width > 0 && g.height > 0) ==> (p.1 + g.height - 1) * size + p.0 + g.width - 1 < size * size
}

/// The glyphs can be packed into a `size` by `size` atlas: its pixel count
/// fits in 32 bits and every glyph fits.
pub open spec fn packable(glyphs: Seq<GlyphBitmap>, spacing: int, size: int) -> bool {
    &&& size * size <= u32::MAX
    &&& forall|k: int| 0 <= k < glyphs.len() ==> #[trigger] glyph_fits(glyphs, k, spacing, size)
}

/// A blank atlas of `n` pixels.
fn blank(n: usize) -> (v: Vec<u8>)
    ensures
        v@ == Seq::new(n as nat, |i: int| 0u8),
{
    let mut v: Vec<u8> = Vec::with_capacity(n);
    let mut i: usize = 0;
    while i < n
        invariant
            i <= n,
            v@ == Seq::new(i as nat, |j: int| 0u8),
        decreases n - i,
    {
        v.push(0u8);
        i = i + 1;
        assert(v@ =~= Seq::new(i as nat, |j: int| 0u8));
    }
    v
}

/// Copy the `w` by `h` bitmap `bm`, row by row, to (`x`, `y`) of an image
/// `aw` pixels wide and `ah` pixels high.
fn blit_one(atlas: &mut Vec<u8>, bm: &Vec<u8>, w: u32, h: u32, x: u32, y: u32, aw: u32, ah: u32)
    requires
        old(atlas)@.len() == aw * ah,
        aw * ah <= u32::MAX,
        bm@.len() >= w * h,
        (w > 0 && h > 0) ==> (y + h - 1) * aw + x + w - 1 < aw * ah,
    ensures
        final(atlas)@.len() == old(atlas)@.len(),
        final(atlas)@ == blit(old(atlas)@, bm@, w as int, h as int, x as int, y as int, aw as int),
{
    let ghost a0 = atlas@;
    if w == 0 || h == 0 {
        proof {
            assert(w * h == 0) by (nonlinear_arith) requires w == 0 || h == 0;
        }
        return;
    }
    proof {
        assert(aw > 0 && y + h - 1 < ah) by (nonlinear_arith)
            requires (y + h - 1) * aw + x + w - 1 < aw * ah, x >= 0, w >= 1, y + h - 1 >= 0, aw >= 0, ah >= 0;
    }
    let mut r: u32 = 0;
    while r < h
        invariant
            w > 0,
            h > 0,
            aw > 0,
            y + h - 1 < ah,
            a0.len() == aw * ah,
            atlas@.len() == a0.len(),
            aw * ah <= u32::MAX,
            bm@.len() >= w * h,
            (y + h - 1) * aw + x + w - 1 < aw * ah,
            r <= h,
            atlas@ == blit_prefix(a0, bm@, w as int, x as int, y as int, aw as int, (r * w) as nat),
        decreases h - r,
    {
        let mut c: u32 = 0;
        proof {
            assert(r * w >= 0) by (nonlinear_arith) requires r >= 0, w >= 0;
        }
        while c < w
            invariant
                w > 0,
                h > 0,
                aw > 0,
                y + h - 1 < ah,
                a0.len() == aw * ah,
                atlas@.len() == a0.len(),
                aw * ah <= u32::MAX,
                bm@.len() >= w * h,
                (y + h - 1) * aw + x + w - 1 < aw * ah,
                r < h,
                c <= w,
                r * w >= 0,
                atlas@ == blit_prefix(a0, bm@, w as int, x as int, y as int, aw as int, (r * w + c) as nat),
            decreases w - c,
        {
            proof {
                assert((y + r) * aw <= (y + h - 1) * aw) by (nonlinear_arith)
                    requires r <= h - 1, aw >= 0;
                assert(r * w + c < w * h) by (nonlinear_arith)
                    requires r < h, c < w;
                lemma_fundamental_div_mod_converse(r * w + c, w as int, r as int, c as int);
            }
            proof {
                assert(r * w + c <= u32::MAX * u32::MAX + u32::MAX) by (nonlinear_arith)
                    requires r <= u32::MAX, w <= u32::MAX, c <= u32::MAX;
            }
            let ghost k = r * w + c;
            let bm_len = bm.len();
            assert(k < bm_len);
            let src64 = (r as u64) * (w as u64) + (c as u64);
            assert(src64 == k);
            let src_idx = src64 as usize;
            assert(src_idx == k);
            let atlas_idx = ((y + r) * aw + (x + c)) as usize;
            assert(atlas_idx == (y + k / (w as int)) * aw + x + k % (w as int));
            let ghost before = atlas@;
            atlas.set(atlas_idx, bm[src_idx]);
            proof {
                assert(((k + 1) as nat) - 1 == k);
                assert(before == blit_prefix(a0, bm@, w as int, x as int, y as int, aw as int, k as nat));
                assert(atlas@ == before.update(atlas_idx as int, bm@[k]));
                assert(atlas@ == blit_prefix(a0, bm@, w as int, x as int, y as int, aw as int, (k + 1) as nat));
            }
            c = c + 1;
        }
        proof {
            assert(r * w + w == (r + 1) * w) by (nonlinear_arith);
        }
        r = r + 1;
    }
    proof {
        assert(h * w == w * h) by (nonlinear_arith);
    }
}

/// The image of a `width` by `height` bitmap with `padding` blank pixels
/// around it, and the padded width and height.
pub fn pad_bitmap(bitmap: &Vec<u8>, width: u32, height: u32, padding: u32) -> (r: (Vec<u8>, u32, u32))
    requires
        width + 2 * padding <= u32::MAX,
        height + 2 * padding <= u32::MAX,
        (width + 2 * padding) * (height + 2 * padding) <= u32::MAX,
        bitmap@.len() >= width * height,
    ensures
        r.1 == width + 2 * padding,
        r.2 == height + 2 * padding,
        r.0@ == blit_rect(Seq::new((r.1 * r.2) as nat, |i: int| 0u8), bitmap@, width as int, height as int,
            padding as int, padding as int, r.1 as int),
{
    let padded_width = width + padding * 2;
    let padded_height = height + padding * 2;
    let mut padded = blank((padded_width * padded_height) as usize);
    proof {
        if width > 0 && height > 0 {
            let pw = padded_width as int;
            let ph = padded_height as int;
            let p = padding as int;
            assert((p + height - 1) * pw + p + width - 1 < (p + height) * pw) by (nonlinear_arith)
                requires pw == width + 2 * p, p >= 0, width >= 1;
            assert((p + height) * pw <= pw * ph) by (nonlinear_arith)
                requires ph == height + 2 * p, p >= 0, pw >= 0;
        }
    }
    let ghost blank_pixels = padded@;
    blit_one(&mut padded, bitmap, width, height, padding, padding, padded_width, padded_height);
    proof {
        let pw = padded_width as int;
        let ph = padded_height as int;
        let p = padding as int;
        assert((p + height) * pw <= pw * ph) by (nonlinear_arith)
            requires ph == height + 2 * p, p >= 0, pw >= 0;
        law_blit_in_rectangle(blank_pixels, bitmap@, width as int, height as int, p, p, pw);
    }
    (padded, padded_width, padded_height)
}

/// Pack glyph bitmaps into a `size` by `size` atlas on shelves: each glyph
/// goes at its placement (see `placement`), with `spacing` pixels after it
/// and below its shelf, and its bitmap is copied there. Returns the
/// placements, in glyph order, and the atlas pixels (0 where no glyph is).
pub fn blit_glyphs(glyphs: &Vec<GlyphBitmap>, spacing: u32, size: u32) -> (r: (Vec<GlyphPlacement>, Vec<u8>))
    requires
        packable(glyphs@, spacing as int, size as int),
    ensures
        r.0@.len() == glyphs@.len(),
        forall|k: int| 0 <= k < glyphs@.len() ==> {
            &&& (#[trigger] r.0@[k]).ch == glyphs@[k].ch
            &&& r.0@[k].x == placement(glyphs@, k, spacing as int, size as int).0
            &&& r.0@[k].y == placement(glyphs@, k, spacing as int, size as int).1
        },
        r.1@ == atlas_after(glyphs@, spacing as int, size as int),
{
    let ghost gs = glyphs@;
    let ghost sp = spacing as int;
    let ghost s = size as int;
    let mut atlas = blank((size * size) as usize);
    let mut placements: Vec<GlyphPlacement> = Vec::new();
    let mut current_x: u32 = 0;
    let mut current_y: u32 = 0;
    let mut max_row_height: u32 = 0;
    let n = glyphs.len();
    let mut k: usize = 0;
    proof {
        assert(gs.take(0) =~= Seq::<GlyphBitmap>::empty());
    }
    while k < n
        invariant
            n == gs.len(),
            gs == glyphs@,
            sp == spacing,
            s == size,
            packable(gs, sp, s),
            k <= n,
            (current_x as int, current_y as int, max_row_height as int) == cursor(gs.take(k as int), sp, s),
            atlas@ == atlas_after(gs.take(k as int), sp, s),
            atlas@.len() == s * s,
            placements@.len() == k,
            forall|j: int| 0 <= j < k ==> {
                &&& (#[trigger] placements@[j]).ch == gs[j].ch
                &&& placements@[j].x == placement(gs, j, sp, s).0
                &&& placements@[j].y == placement(gs, j, sp, s).1
            },
        decreases n - k,
    {
        let g = &glyphs[k];
        let ghost prefix = gs.take(k as int);
        let ghost next = gs.take(k + 1);
        proof {
            assert(next.drop_last() =~= prefix);
            assert(next.last() == gs[k as int]);
            assert(next.take(k as int) =~= prefix);
            assert(glyph_fits(gs, k as int, sp, s));
        }
        if current_x + g.width + spacing > size {
            current_x = 0;
            current_y = current_y + max_row_height + spacing;
            max_row_height = 0;
        }
        if g.height > max_row_height {
            max_row_height = g.height;
        }
        blit_one(&mut atlas, &g.bitmap, g.width, g.height, current_x, current_y, size, size);
        placements.push(GlyphPlacement { ch: g.ch, x: current_x, y: current_y });
        current_x = current_x + g.width + spacing;
        proof {
            assert(placement(next, k as int, sp, s) == placement(gs, k as int, sp, s));
        }
        k = k + 1;
    }
    proof {
        assert(gs.take(n as int) =~= gs);
    }
    (placements, atlas)
}

/// Whether the glyphs can be packed into a `size` by `size` atlas with
/// `spacing` (see `packable`).
pub fn packs(glyphs: &Vec<GlyphBitmap>, spacing: u32, size: u32) -> (b: bool)
    ensures
        b == packable(glyphs@, spacing as int, size as int),
{
    let ghost gs = glyphs@;
    let ghost sp = spacing as int;
    let ghost s = size as int;
    proof {
        assert((size as int) * (size as int) <= 0xffff_ffff * 0xffff_ffff) by (nonlinear_arith)
            requires size <= 0xffff_ffff;
    }
    if (size as u64) * (size as u64) > 0xffff_ffffu64 {
        return false;
    }
    let max: u64 = 0xffff_ffff;
    let mut cx: u64 = 0;
    let mut cy: u64 = 0;
    let mut row: u64 = 0;
    let n = glyphs.len();
    let mut k: usize = 0;
    proof {
        assert(gs.take(0) =~= Seq::<GlyphBitmap>::empty());
    }
    while k < n
        invariant
            n == gs.len(),
            gs == glyphs@,
            sp == spacing,
            s == size,
            s * s <= u32::MAX,
            max == u32::MAX,
            k <= n,
            (cx as int, cy as int, row as int) == cursor(gs.take(k as int), sp, s),
            cx <= u32::MAX + u32::MAX + u32::MAX,
            cy <= u32::MAX,
            row <= u32::MAX,
            forall|j: int| 0 <= j < k ==> #[trigger] glyph_fits(gs, j, sp, s),
        decreases n - k,
    {
        let g = &glyphs[k];
        let ghost prefix = gs.take(k as int);
        let ghost next = gs.take(k + 1);
        proof {
            assert(next.drop_last() =~= prefix);
            assert(next.last() == gs[k as int]);
        }
        let w = g.width as u64;
        let h = g.height as u64;
        let sp64 = spacing as u64;
        if cx + w + sp64 > max || cy + row + sp64 > max {
            proof {
                assert(!glyph_fits(gs, k as int, sp, s));
            }
            return false;
        }
        let wrap = cx + w + sp64 > size as u64;
        let x: u64 = if wrap { 0 } else { cx };
        let y: u64 = if wrap { cy + row + sp64 } else { cy };
        let base_row: u64 = if wrap { 0 } else { row };
        proof {
            assert(w * h <= u32::MAX * u32::MAX) by (nonlinear_arith)
                requires w <= u32::MAX, h <= u32::MAX;
        }
        let sz = size as u64;
        let in_atlas = if w > 0 && h > 0 {
            if y + h > sz {
                proof {
                    assert((y + h - 1) * sz + x + w - 1 >= sz * sz) by (nonlinear_arith)
                        requires y + h - 1 >= sz, x >= 0, w >= 1, sz >= 0;
                }
                false
            } else {
                proof {
                    assert((y + h - 1) * sz <= sz * sz) by (nonlinear_arith)
                        requires y + h - 1 < sz, sz >= 0, y + h - 1 >= 0;
                }
                (y + h - 1) * sz + x + w - 1 < sz * sz
            }
        } else {
            true
        };
        let fits = x + w + sp64 <= max
            && (g.bitmap.len() as u64) >= w * h
            && in_atlas;
        if !fits {
            proof {
                assert(!glyph_fits(gs, k as int, sp, s));
            }
            return false;
        }
        proof {
            assert(glyph_fits(gs, k as int, sp, s));
            assert(cursor(next, sp, s) == (x + w + sp64, y as int, if base_row >= h { base_row as int } else { h as int }));
        }
        cx = x + w + sp64;
        cy = y;
        row = if base_row >= h { base_row } else { h };
        k = k + 1;
    }
    true
}

/// Pack glyph bitmaps into a `size` by `size` atlas as `blit_glyphs` does,
/// or `None` if they cannot be packed (see `packable`).
pub fn try_blit_glyphs(glyphs: &Vec<GlyphBitmap>, spacing: u32, size: u32) -> (r: Option<(Vec<GlyphPlacement>, Vec<u8>)>)
    ensures
        r is Some <==> packable(glyphs@, spacing as int, size as int),
        r matches Some(res) ==> {
            &&& res.0@.len() == glyphs@.len()
            &&& forall|k: int| 0 <= k < glyphs@.len() ==> {
                &&& (#[trigger] res.0@[k]).ch == glyphs@[k].ch
                &&& res.0@[k].x == placement(glyphs@, k, spacing as int, size as int).0
                &&& res.0@[k].y == placement(glyphs@, k, spacing as int, size as int).1
            }
            &&& res.1@ == atlas_after(glyphs@, spacing as int, size as int)
        },
{
    if packs(glyphs, spacing, size) {
        Some(blit_glyphs(glyphs, spacing, size))
    } else {
        None
    }
}

/// What drawing text does with one character.
#[derive(PartialEq, Eq, Structural, Clone, Copy, Debug)]
pub enum GlyphStep {
    /// A newline: the cursor goes back to the line's start, one line down.
    LineBreak,
    /// A space: the cursor advances by the glyph's advance, nothing is drawn.
    Advance,
    /// A character with a glyph: it is drawn, then the cursor advances.
    Draw,
    /// A character without a glyph: it is skipped.
    Skip,
}

/// The step for character `c`, where `known` says whether the font has a glyph for it.
pub open spec fn glyph_step(c: char, known: bool) -> GlyphStep {
    if c == '\n' {
        GlyphStep::LineBreak
    } else if !known {
        GlyphStep::Skip
    } else if c == ' ' {
        GlyphStep::Advance
    } else {
        GlyphStep::Draw
    }
}

/// Whether `c` is one of `chars`.
fn has_char(chars: &Vec<char>, c: char) -> (b: bool)
    ensures
        b == chars@.contains(c),
{
    let mut i: usize = 0;
    while i < chars.len()
        invariant
            i <= chars@.len(),
            forall|j: int| 0 <= j < i ==> chars@[j] != c,
        decreases chars@.len() - i,
    {
        if chars[i] == c {
            return true;
        }
        i = i + 1;
    }
    false
}

/// What drawing `text` with a font whose glyphs are those of `glyph_chars`
/// does with each character, in order: a newline breaks the line, a
/// character without a glyph is skipped, a space advances the cursor, any
/// other character is drawn.
pub fn text_steps(text: &Vec<char>, glyph_chars: &Vec<char>) -> (r: Vec<GlyphStep>)
    ensures
        r@.len() == text@.len(),
        forall|i: int| 0 <= i < text@.len() ==> #[trigger] r@[i] == glyph_step(text@[i], glyph_chars@.contains(text@[i])),
{
    let mut r: Vec<GlyphStep> = Vec::with_capacity(text.len());
    let mut i: usize = 0;
    while i < text.len()
        invariant
            i <= text@.len(),
            r@.len() == i,
            forall|j: int| 0 <= j < i ==> #[trigger] r@[j] == glyph_step(text@[j], glyph_chars@.contains(text@[j])),
        decreases text@.len() - i,
    {
        let c = text[i];
        let step = if c == '\n' {
            GlyphStep::LineBreak
        } else if !has_char(glyph_chars, c) {
            GlyphStep::Skip
        } else if c == ' ' {
            GlyphStep::Advance
        } else {
            GlyphStep::Draw
        };
        r.push(step);
        i = i + 1;
    }
    r
}

} // verus!

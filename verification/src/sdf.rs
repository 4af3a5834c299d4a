use vstd::prelude::*;
use vstd::arithmetic::div_mod::lemma_fundamental_div_mod_converse;

verus! {

/// The offset that marks "no pixel found yet": a pixel's target lies this far
/// beyond its own position on both axes, outside the bitmap.
pub const FAR: i64 = 9999;

/// Whether a pixel value lies inside the glyph (more than half covered).
pub open spec fn is_inside(v: u8) -> bool {
    v > 127
}

/// Whether a pixel value lies outside the glyph.
pub open spec fn is_outside(v: u8) -> bool {
    !is_inside(v)
}

/// Whether the point (`tx`, `ty`) lies in the far region: a pixel of the
/// bitmap moved by `FAR` on both axes.
pub open spec fn is_far(tx: int, ty: int, w: int, h: int) -> bool {
    FAR <= tx < FAR + w && FAR <= ty < FAR + h
}

/// Whether `off`, the offset stored for pixel `p` of a `w` by `h` bitmap,
/// points to a pixel whose insideness is `kind`, or into the far region.
pub open spec fn points_to(src: Seq<u8>, w: int, h: int, p: int, off: (i64, i64), kind: bool) -> bool {
    let tx = p % w + off.0;
    let ty = p / w + off.1;
    ||| (0 <= tx < w && 0 <= ty < h && is_inside(src[ty * w + tx]) == kind)
    ||| is_far(tx, ty, w, h)
}

/// Every offset of the grid points to a pixel of the given kind (or far away).
pub open spec fn grid_ok(src: Seq<u8>, w: int, h: int, g: Seq<(i64, i64)>, kind: bool) -> bool {
    &&& g.len() == w * h
    &&& forall|p: int| 0 <= p < w * h ==> points_to(src, w, h, p, #[trigger] g[p], kind)
}

/// The squared length of an offset.
pub open spec fn len2(o: (i64, i64)) -> int {
    o.0 * o.0 + o.1 * o.1
}

/// Whether pixel `p` has a neighbor at (`dx`, `dy`) within the bitmap whose
/// insideness is `kind`.
pub open spec fn neighbor_of_kind(src: Seq<u8>, w: int, h: int, p: int, dx: int, dy: int, kind: bool) -> bool {
    let nx = p % w + dx;
    let ny = p / w + dy;
    0 <= nx < w && 0 <= ny < h && is_inside(src[ny * w + nx]) == kind
}

/// Pixel `p`'s offset is no longer than the way to its neighbor at
/// (`dx`, `dy`), if that neighbor is of the given kind.
pub open spec fn near_ok(src: Seq<u8>, w: int, h: int, g: Seq<(i64, i64)>, kind: bool, p: int, dx: int, dy: int) -> bool {
    neighbor_of_kind(src, w, h, p, dx, dy, kind) ==> len2(g[p]) <= dx * dx + dy * dy
}

/// The neighbors that the forward sweep tries: left, top-left, top, top-right.
pub open spec fn forward_ok(src: Seq<u8>, w: int, h: int, g: Seq<(i64, i64)>, kind: bool, p: int) -> bool {
    &&& near_ok(src, w, h, g, kind, p, -1, 0)
    &&& near_ok(src, w, h, g, kind, p, -1, -1)
    &&& near_ok(src, w, h, g, kind, p, 0, -1)
    &&& near_ok(src, w, h, g, kind, p, 1, -1)
}

/// The neighbors that the backward sweep tries: right, bottom-right, bottom, bottom-left.
pub open spec fn backward_ok(src: Seq<u8>, w: int, h: int, g: Seq<(i64, i64)>, kind: bool, p: int) -> bool {
    &&& near_ok(src, w, h, g, kind, p, 1, 0)
    &&& near_ok(src, w, h, g, kind, p, 1, 1)
    &&& near_ok(src, w, h, g, kind, p, 0, 1)
    &&& near_ok(src, w, h, g, kind, p, -1, 1)
}

/// Pixels of the grid's kind point to themselves.
pub open spec fn seeds_ok(src: Seq<u8>, w: int, h: int, g: Seq<(i64, i64)>, kind: bool) -> bool {
    forall|q: int| 0 <= q < w * h && is_inside(src[q]) == kind ==> #[trigger] g[q] == (0i64, 0i64)
}

/// No offset of `after` is longer than the same pixel's offset in `before`.
pub open spec fn no_longer(before: Seq<(i64, i64)>, after: Seq<(i64, i64)>) -> bool {
    &&& after.len() == before.len()
    &&& forall|q: int| 0 <= q < before.len() ==> len2(#[trigger] after[q]) <= len2(before[q])
}

/// The bitmap is `w` by `h` pixels, its pixel count fits the 32-bit index
/// arithmetic, and `src` holds all its pixels.
pub open spec fn bitmap_fits(src: Seq<u8>, w: int, h: int) -> bool {
    &&& w * h <= i32::MAX
    &&& src.len() >= w * h
}

/// The bitmap has pixels and fits (see `bitmap_fits`).
pub open spec fn bitmap_ok(src: Seq<u8>, w: int, h: int) -> bool {
    &&& w > 0
    &&& h > 0
    &&& bitmap_fits(src, w, h)
}

/// One relaxation step of the distance transform: pixel (`x`, `y`) takes the
/// offset of its neighbor (`nx`, `ny`), moved by the step between them, where
/// the neighbor lies in the bitmap and that offset is strictly shorter than
/// the pixel's own.
pub open spec fn relaxed(g: Seq<(i64, i64)>, w: int, h: int, x: int, y: int, nx: int, ny: int) -> Seq<(i64, i64)> {
    if 0 <= nx < w && 0 <= ny < h {
        let n = g[ny * w + nx];
        let cand = ((n.0 + (nx - x)) as i64, (n.1 + (ny - y)) as i64);
        if len2(cand) < len2(g[y * w + x]) {
            g.update(y * w + x, cand)
        } else {
            g
        }
    } else {
        g
    }
}

/// The forward sweep's work at pixel `p`: it tries its left, top-left, top
/// and top-right neighbors, in that order.
pub open spec fn forward_step(g: Seq<(i64, i64)>, w: int, h: int, p: int) -> Seq<(i64, i64)> {
    let x = p % w;
    let y = p / w;
    let g1 = relaxed(g, w, h, x, y, x - 1, y);
    let g2 = relaxed(g1, w, h, x, y, x - 1, y - 1);
    let g3 = relaxed(g2, w, h, x, y, x, y - 1);
    relaxed(g3, w, h, x, y, x + 1, y - 1)
}

/// The backward sweep's work at pixel `p`: it tries its right, bottom-right,
/// bottom and bottom-left neighbors, in that order.
pub open spec fn backward_step(g: Seq<(i64, i64)>, w: int, h: int, p: int) -> Seq<(i64, i64)> {
    let x = p % w;
    let y = p / w;
    let g1 = relaxed(g, w, h, x, y, x + 1, y);
    let g2 = relaxed(g1, w, h, x, y, x + 1, y + 1);
    let g3 = relaxed(g2, w, h, x, y, x, y + 1);
    relaxed(g3, w, h, x, y, x - 1, y + 1)
}

/// The grid after the forward sweep has visited its first `n` pixels, in
/// reading order.
pub open spec fn forward_prefix(g: Seq<(i64, i64)>, w: int, h: int, n: nat) -> Seq<(i64, i64)>
    decreases n,
{
    if n == 0 {
        g
    } else {
        forward_step(forward_prefix(g, w, h, (n - 1) as nat), w, h, n - 1)
    }
}

/// The grid after the backward sweep has visited the last `n` pixels, from
/// the last one back.
pub open spec fn backward_prefix(g: Seq<(i64, i64)>, w: int, h: int, n: nat) -> Seq<(i64, i64)>
    decreases n,
{
    if n == 0 {
        g
    } else {
        backward_step(backward_prefix(g, w, h, (n - 1) as nat), w, h, w * h - n)
    }
}

/// The seeded grid: pixels whose insideness is `kind` point to themselves,
/// all others at `(FAR, FAR)`.
pub open spec fn seeded(src: Seq<u8>, w: int, h: int, kind: bool) -> Seq<(i64, i64)> {
    Seq::new((w * h) as nat, |p: int| if is_inside(src[p]) == kind { (0i64, 0i64) } else { (FAR, FAR) })
}

/// The grid of pixels of kind `kind` after the forward and then the backward sweep.
pub open spec fn swept(src: Seq<u8>, w: int, h: int, kind: bool) -> Seq<(i64, i64)> {
    let n = (w * h) as nat;
    backward_prefix(forward_prefix(seeded(src, w, h, kind), w, h, n), w, h, n)
}

/// The offset field: a pixel inside the glyph takes its offset from the swept
/// grid of outside pixels, a pixel outside it from the swept grid of inside pixels.
pub open spec fn sdf_field(src: Seq<u8>, w: int, h: int) -> Seq<(i64, i64)> {
    Seq::new((w * h) as nat, |p: int| if is_inside(src[p]) { swept(src, w, h, false)[p] } else { swept(src, w, h, true)[p] })
}

proof fn lemma_coords(w: int, x: int, y: int)
    requires
        w > 0,
        0 <= x < w,
        0 <= y,
    ensures
        (y * w + x) % w == x,
        (y * w + x) / w == y,
{
    lemma_fundamental_div_mod_converse(y * w + x, w, y, x);
}

proof fn lemma_index_bound(w: int, h: int, x: int, y: int)
    requires
        0 <= x < w,
        0 <= y < h,
    ensures
        0 <= y * w + x < w * h,
{
    assert(0 <= y * w) by (nonlinear_arith) requires 0 <= y, 0 <= w;
    assert(y * w + x < w * h) by (nonlinear_arith) requires 0 <= x < w, 0 <= y < h;
}

/// The squared length of an offset.
fn length_sq(off: (i64, i64)) -> (l: i128)
    requires
        -0x1_0000_0000 <= off.0 <= 0x1_0000_0000,
        -0x1_0000_0000 <= off.1 <= 0x1_0000_0000,
    ensures
        l == off.0 * off.0 + off.1 * off.1,
{
    let a = off.0 as i128;
    let b = off.1 as i128;
    assert(a * a <= 0x1_0000_0000 * 0x1_0000_0000) by (nonlinear_arith)
        requires -0x1_0000_0000 <= a <= 0x1_0000_0000;
    assert(b * b <= 0x1_0000_0000 * 0x1_0000_0000) by (nonlinear_arith)
        requires -0x1_0000_0000 <= b <= 0x1_0000_0000;
    assert(a * a >= 0) by (nonlinear_arith);
    assert(b * b >= 0) by (nonlinear_arith);
    a * a + b * b
}

/// The column, the row and the index of pixel `p` agree.
proof fn lemma_pixel(w: int, h: int, p: int)
    requires
        w > 0,
        h > 0,
        0 <= p < w * h,
    ensures
        0 <= p % w < w,
        0 <= p / w < h,
        p == (p / w) * w + p % w,
{
    vstd::arithmetic::div_mod::lemma_fundamental_div_mod(p, w);
    vstd::arithmetic::div_mod::lemma_mod_pos_bound(p, w);
    vstd::arithmetic::div_mod::lemma_div_pos_is_pos(p, w);
    assert(p == w * (p / w) + p % w);
    assert(w * (p / w) == (p / w) * w) by (nonlinear_arith);
    if p / w >= h {
        assert((p / w) * w >= h * w) by (nonlinear_arith) requires p / w >= h, w > 0;
        assert(w * h == h * w) by (nonlinear_arith);
    }
}

/// An offset that points into the bitmap or the far region is small.
proof fn lemma_offset_bounds(src: Seq<u8>, w: int, h: int, p: int, off: (i64, i64), kind: bool)
    requires
        bitmap_ok(src, w, h),
        0 <= p < w * h,
        points_to(src, w, h, p, off, kind),
    ensures
        -0x1_0000_0000 < off.0 < 0x1_0000_0000,
        -0x1_0000_0000 < off.1 < 0x1_0000_0000,
{
    lemma_pixel(w, h, p);
    assert(w <= i32::MAX) by (nonlinear_arith) requires w * h <= i32::MAX, h >= 1, w > 0;
    assert(h <= i32::MAX) by (nonlinear_arith) requires w * h <= i32::MAX, w >= 1, h > 0;
}

/// Try the offset of neighbor (`nx`, `ny`) for pixel (`x`, `y`): if the
/// neighbor is in the bitmap and its target is nearer to (`x`, `y`) than the
/// pixel's own, the pixel takes it.
fn relax(grid: &mut Vec<(i64, i64)>, w: i64, h: i64, x: i64, y: i64, nx: i64, ny: i64, Ghost(src): Ghost<Seq<u8>>, Ghost(kind): Ghost<bool>)
    requires
        bitmap_ok(src, w as int, h as int),
        grid_ok(src, w as int, h as int, old(grid)@, kind),
        0 <= x < w,
        0 <= y < h,
        x - 1 <= nx <= x + 1,
        y - 1 <= ny <= y + 1,
    ensures
        grid_ok(src, w as int, h as int, final(grid)@, kind),
        no_longer(old(grid)@, final(grid)@),
        forall|q: int| 0 <= q < w * h && q != y * w + x ==> #[trigger] final(grid)@[q] == old(grid)@[q],
        seeds_ok(src, w as int, h as int, old(grid)@, kind) ==> seeds_ok(src, w as int, h as int, final(grid)@, kind),
        (seeds_ok(src, w as int, h as int, old(grid)@, kind) && 0 <= nx < w && 0 <= ny < h
            && is_inside(src[ny * w + nx]) == kind) ==> len2(final(grid)@[y * w + x]) <= (nx - x) * (nx - x) + (ny - y) * (ny - y),
        final(grid)@ == relaxed(old(grid)@, w as int, h as int, x as int, y as int, nx as int, ny as int),
{
    if nx >= 0 && nx < w && ny >= 0 && ny < h {
        proof {
            lemma_index_bound(w as int, h as int, x as int, y as int);
            lemma_index_bound(w as int, h as int, nx as int, ny as int);
            lemma_coords(w as int, x as int, y as int);
            lemma_coords(w as int, nx as int, ny as int);
        }
        let curr_idx = (y * w + x) as usize;
        let neigh_idx = (ny * w + nx) as usize;
        let n_pt = grid[neigh_idx];
        let c_pt = grid[curr_idx];
        proof {
            lemma_offset_bounds(src, w as int, h as int, neigh_idx as int, n_pt, kind);
            lemma_offset_bounds(src, w as int, h as int, curr_idx as int, c_pt, kind);
        }
        let new_pt = (n_pt.0 + (nx - x), n_pt.1 + (ny - y));
        assert(new_pt == ((n_pt.0 + (nx - x)) as i64, (n_pt.1 + (ny - y)) as i64));
        if length_sq(new_pt) < length_sq(c_pt) {
            grid.set(curr_idx, new_pt);
            proof {
                assert(len2(new_pt) >= 0) by (nonlinear_arith);
                if seeds_ok(src, w as int, h as int, old(grid)@, kind) {
                    assert forall|q: int| 0 <= q < w * h && is_inside(src[q]) == kind implies #[trigger] grid@[q] == (0i64, 0i64) by {
                        if q == curr_idx as int {
                            assert(old(grid)@[q] == (0i64, 0i64));
                            assert(c_pt == (0i64, 0i64));
                            assert(len2(c_pt) == 0);
                            assert(false);
                        }
                    }
                }
                let g = grid@;
                assert forall|p: int| 0 <= p < w * h implies points_to(src, w as int, h as int, p, #[trigger] g[p], kind) by {
                    if p == curr_idx as int {
                        assert(points_to(src, w as int, h as int, neigh_idx as int, n_pt, kind));
                    } else {
                        assert(g[p] == old(grid)@[p]);
                    }
                }
            }
        }
    }
}

/// The two distance grids seeded from the bitmap: in the first, pixels inside
/// the glyph point to themselves; in the second, pixels outside it do. Every
/// other offset is `(FAR, FAR)`.
fn seed_grids(src: &[u8], w: i64, h: i64) -> (r: (Vec<(i64, i64)>, Vec<(i64, i64)>))
    requires
        bitmap_ok(src@, w as int, h as int),
    ensures
        grid_ok(src@, w as int, h as int, r.0@, true),
        grid_ok(src@, w as int, h as int, r.1@, false),
        seeds_ok(src@, w as int, h as int, r.0@, true),
        seeds_ok(src@, w as int, h as int, r.1@, false),
        r.0@ == seeded(src@, w as int, h as int, true),
        r.1@ == seeded(src@, w as int, h as int, false),
{
    let total = (w * h) as usize;
    let mut inside: Vec<(i64, i64)> = Vec::with_capacity(total);
    let mut outside: Vec<(i64, i64)> = Vec::with_capacity(total);
    let mut idx: usize = 0;
    while idx < total
        invariant
            bitmap_ok(src@, w as int, h as int),
            total == w * h,
            idx <= total,
            inside@.len() == idx,
            outside@.len() == idx,
            forall|p: int| 0 <= p < idx ==> points_to(src@, w as int, h as int, p, #[trigger] inside@[p], true),
            forall|p: int| 0 <= p < idx ==> points_to(src@, w as int, h as int, p, #[trigger] outside@[p], false),
            forall|p: int| 0 <= p < idx && is_inside(src@[p]) ==> #[trigger] inside@[p] == (0i64, 0i64),
            forall|p: int| 0 <= p < idx && !is_inside(src@[p]) ==> #[trigger] outside@[p] == (0i64, 0i64),
            forall|p: int| 0 <= p < idx && !is_inside(src@[p]) ==> #[trigger] inside@[p] == (FAR, FAR),
            forall|p: int| 0 <= p < idx && is_inside(src@[p]) ==> #[trigger] outside@[p] == (FAR, FAR),
        decreases total - idx,
    {
        let ghost p = idx as int;
        proof {
            lemma_pixel(w as int, h as int, p);
        }
        if src[idx] > 127 {
            inside.push((0, 0));
            outside.push((FAR, FAR));
        } else {
            inside.push((FAR, FAR));
            outside.push((0, 0));
        }
        idx = idx + 1;
    }
    assert(inside@ =~= seeded(src@, w as int, h as int, true));
    assert(outside@ =~= seeded(src@, w as int, h as int, false));
    (inside, outside)
}

/// The forward sweep: top to bottom, left to right, each pixel tries its left,
/// top-left, top and top-right neighbors.
fn sweep_forward(grid: &mut Vec<(i64, i64)>, w: i64, h: i64, Ghost(src): Ghost<Seq<u8>>, Ghost(kind): Ghost<bool>)
    requires
        bitmap_ok(src, w as int, h as int),
        grid_ok(src, w as int, h as int, old(grid)@, kind),
        seeds_ok(src, w as int, h as int, old(grid)@, kind),
    ensures
        grid_ok(src, w as int, h as int, final(grid)@, kind),
        seeds_ok(src, w as int, h as int, final(grid)@, kind),
        no_longer(old(grid)@, final(grid)@),
        forall|q: int| 0 <= q < w * h ==> #[trigger] forward_ok(src, w as int, h as int, final(grid)@, kind, q),
        final(grid)@ == forward_prefix(old(grid)@, w as int, h as int, (w * h) as nat),
{
    let ghost g0 = grid@;
    let mut y: i64 = 0;
    while y < h
        invariant
            bitmap_ok(src, w as int, h as int),
            grid_ok(src, w as int, h as int, grid@, kind),
            seeds_ok(src, w as int, h as int, grid@, kind),
            no_longer(g0, grid@),
            0 <= y <= h,
            forall|q: int| 0 <= q < y * w ==> #[trigger] forward_ok(src, w as int, h as int, grid@, kind, q),
            grid@ == forward_prefix(g0, w as int, h as int, (y * w) as nat),
        decreases h - y,
    {
        let mut x: i64 = 0;
        while x < w
            invariant
                bitmap_ok(src, w as int, h as int),
                grid_ok(src, w as int, h as int, grid@, kind),
                seeds_ok(src, w as int, h as int, grid@, kind),
                no_longer(g0, grid@),
                0 <= y < h,
                0 <= x <= w,
                forall|q: int| 0 <= q < y * w + x ==> #[trigger] forward_ok(src, w as int, h as int, grid@, kind, q),
                grid@ == forward_prefix(g0, w as int, h as int, (y * w + x) as nat),
            decreases w - x,
        {
            let ghost gb = grid@;
            let ghost p = y * w + x;
            proof {
                lemma_coords(w as int, x as int, y as int);
                lemma_index_bound(w as int, h as int, x as int, y as int);
            }
            relax(grid, w, h, x, y, x - 1, y, Ghost(src), Ghost(kind));
            let ghost g1 = grid@;
            relax(grid, w, h, x, y, x - 1, y - 1, Ghost(src), Ghost(kind));
            let ghost g2 = grid@;
            relax(grid, w, h, x, y, x, y - 1, Ghost(src), Ghost(kind));
            let ghost g3 = grid@;
            relax(grid, w, h, x, y, x + 1, y - 1, Ghost(src), Ghost(kind));
            proof {
                let g = grid@;
                assert(p >= 0) by (nonlinear_arith) requires y >= 0, w > 0, x >= 0, p == y * w + x;
                assert(g == forward_step(gb, w as int, h as int, p));
                assert(g == forward_prefix(g0, w as int, h as int, (p + 1) as nat));
                assert(len2(g[p]) <= len2(g3[p]) <= len2(g2[p]) <= len2(g1[p]));
                assert(forward_ok(src, w as int, h as int, g, kind, p));
                assert forall|q: int| 0 <= q < y * w + x + 1 implies #[trigger] forward_ok(src, w as int, h as int, g, kind, q) by {
                    if q < p {
                        assert(g[q] == gb[q]);
                        assert(forward_ok(src, w as int, h as int, gb, kind, q));
                    }
                }
                assert forall|q: int| 0 <= q < g0.len() implies len2(#[trigger] g[q]) <= len2(g0[q]) by {
                    assert(len2(g[q]) <= len2(g3[q]) <= len2(g2[q]) <= len2(g1[q]) <= len2(gb[q]) <= len2(g0[q]));
                }
            }
            x = x + 1;
        }
        proof {
            assert(y * w + w == (y + 1) * w) by (nonlinear_arith);
        }
        y = y + 1;
    }
    proof {
        assert(y == h);
    }
}

/// The backward sweep: bottom to top, right to left, each pixel tries its
/// right, bottom-right, bottom and bottom-left neighbors.
fn sweep_backward(grid: &mut Vec<(i64, i64)>, w: i64, h: i64, Ghost(src): Ghost<Seq<u8>>, Ghost(kind): Ghost<bool>)
    requires
        bitmap_ok(src, w as int, h as int),
        grid_ok(src, w as int, h as int, old(grid)@, kind),
        seeds_ok(src, w as int, h as int, old(grid)@, kind),
    ensures
        grid_ok(src, w as int, h as int, final(grid)@, kind),
        seeds_ok(src, w as int, h as int, final(grid)@, kind),
        no_longer(old(grid)@, final(grid)@),
        forall|q: int| 0 <= q < w * h ==> #[trigger] backward_ok(src, w as int, h as int, final(grid)@, kind, q),
        final(grid)@ == backward_prefix(old(grid)@, w as int, h as int, (w * h) as nat),
{
    let ghost g0 = grid@;
    let mut y: i64 = h;
    while y > 0
        invariant
            bitmap_ok(src, w as int, h as int),
            grid_ok(src, w as int, h as int, grid@, kind),
            seeds_ok(src, w as int, h as int, grid@, kind),
            no_longer(g0, grid@),
            0 <= y <= h,
            forall|q: int| y * w <= q < w * h ==> #[trigger] backward_ok(src, w as int, h as int, grid@, kind, q),
            grid@ == backward_prefix(g0, w as int, h as int, (w * h - y * w) as nat),
        decreases y,
    {
        proof {
            assert((y - 1) * w + w == y * w) by (nonlinear_arith);
        }
        y = y - 1;
        let mut x: i64 = w;
        while x > 0
            invariant
                bitmap_ok(src, w as int, h as int),
                grid_ok(src, w as int, h as int, grid@, kind),
                seeds_ok(src, w as int, h as int, grid@, kind),
                no_longer(g0, grid@),
                0 <= y < h,
                0 <= x <= w,
                forall|q: int| y * w + x <= q < w * h ==> #[trigger] backward_ok(src, w as int, h as int, grid@, kind, q),
                grid@ == backward_prefix(g0, w as int, h as int, (w * h - (y * w + x)) as nat),
            decreases x,
        {
            x = x - 1;
            let ghost gb = grid@;
            let ghost p = y * w + x;
            proof {
                lemma_coords(w as int, x as int, y as int);
                lemma_index_bound(w as int, h as int, x as int, y as int);
            }
            relax(grid, w, h, x, y, x + 1, y, Ghost(src), Ghost(kind));
            let ghost g1 = grid@;
            relax(grid, w, h, x, y, x + 1, y + 1, Ghost(src), Ghost(kind));
            let ghost g2 = grid@;
            relax(grid, w, h, x, y, x, y + 1, Ghost(src), Ghost(kind));
            let ghost g3 = grid@;
            relax(grid, w, h, x, y, x - 1, y + 1, Ghost(src), Ghost(kind));
            proof {
                let g = grid@;
                assert(g == backward_step(gb, w as int, h as int, p));
                let k = (w * h - p) as nat;
                assert(k >= 1);
                assert(w * h - k == p);
                assert(g == backward_prefix(g0, w as int, h as int, k));
                assert(len2(g[p]) <= len2(g3[p]) <= len2(g2[p]) <= len2(g1[p]));
                assert(backward_ok(src, w as int, h as int, g, kind, p));
                assert forall|q: int| y * w + x <= q < w * h implies #[trigger] backward_ok(src, w as int, h as int, g, kind, q) by {
                    if q > p {
                        assert(g[q] == gb[q]);
                        assert(backward_ok(src, w as int, h as int, gb, kind, q));
                    }
                }
                assert forall|q: int| 0 <= q < g0.len() implies len2(#[trigger] g[q]) <= len2(g0[q]) by {
                    assert(len2(g[q]) <= len2(g3[q]) <= len2(g2[q]) <= len2(g1[q]) <= len2(gb[q]) <= len2(g0[q]));
                }
            }
        }
    }
}

/// Both sweeps together try all eight neighbors.
proof fn lemma_all_near(src: Seq<u8>, w: int, h: int, g: Seq<(i64, i64)>, kind: bool, q: int, dx: int, dy: int)
    requires
        forward_ok(src, w, h, g, kind, q),
        backward_ok(src, w, h, g, kind, q),
        -1 <= dx <= 1,
        -1 <= dy <= 1,
        dx != 0 || dy != 0,
    ensures
        near_ok(src, w, h, g, kind, q, dx, dy),
{
}

/// A bound on a pixel's offset survives offsets getting shorter.
proof fn lemma_near_kept(src: Seq<u8>, w: int, h: int, a: Seq<(i64, i64)>, b: Seq<(i64, i64)>, kind: bool, q: int)
    requires
        no_longer(a, b),
        0 <= q < a.len(),
        forward_ok(src, w, h, a, kind, q),
    ensures
        forward_ok(src, w, h, b, kind, q),
{
    assert(len2(b[q]) <= len2(a[q]));
}

/// For each pixel of a `width` by `height` alpha bitmap (row by row; an
/// empty bitmap gives an empty field), the offset from the pixel to a pixel
/// on the other side of the glyph's edge, as two sweeps of the eight-neighbor
/// distance transform find it: a pixel inside
/// the glyph (value above 127) gets an offset to a pixel outside it, and the
/// other way round. Where the bitmap has no pixel on the other side, the
/// offset points into the far region, `FAR` pixels beyond the bitmap. A pixel
/// next to the other side gets an offset no longer than the way to that
/// neighbor. The result is exactly `sdf_field`: the seeded grids after the
/// forward sweep and then the backward sweep.
pub fn sdf_offsets(src: &[u8], width: u32, height: u32) -> (r: Vec<(i64, i64)>)
    requires
        bitmap_fits(src@, width as int, height as int),
    ensures
        r@.len() == width * height,
        forall|p: int| 0 <= p < width * height ==>
            points_to(src@, width as int, height as int, p, #[trigger] r@[p], !is_inside(src@[p])),
        forall|p: int, dx: int, dy: int| 0 <= p < width * height && -1 <= dx <= 1 && -1 <= dy <= 1 && (dx != 0 || dy != 0)
            ==> #[trigger] near_ok(src@, width as int, height as int, r@, is_outside(src@[p]), p, dx, dy),
        r@ == sdf_field(src@, width as int, height as int),
{
    if width == 0 || height == 0 {
        proof {
            assert(width * height == 0) by (nonlinear_arith) requires width == 0 || height == 0;
            assert(sdf_field(src@, width as int, height as int) =~= Seq::<(i64, i64)>::empty());
        }
        return Vec::new();
    }
    let w = width as i64;
    let h = height as i64;
    let ghost ws = w as int;
    let ghost hs = h as int;
    let (mut inside, mut outside) = seed_grids(src, w, h);
    sweep_forward(&mut inside, w, h, Ghost(src@), Ghost(true));
    sweep_forward(&mut outside, w, h, Ghost(src@), Ghost(false));
    let ghost fi = inside@;
    let ghost fo = outside@;
    assert(fi == forward_prefix(seeded(src@, ws, hs, true), ws, hs, (ws * hs) as nat));
    assert(fo == forward_prefix(seeded(src@, ws, hs, false), ws, hs, (ws * hs) as nat));
    sweep_backward(&mut inside, w, h, Ghost(src@), Ghost(true));
    sweep_backward(&mut outside, w, h, Ghost(src@), Ghost(false));
    assert(inside@ == swept(src@, ws, hs, true));
    assert(outside@ == swept(src@, ws, hs, false));
    proof {
        assert forall|q: int| 0 <= q < ws * hs implies #[trigger] forward_ok(src@, ws, hs, inside@, true, q) by {
            assert(forward_ok(src@, ws, hs, fi, true, q));
            lemma_near_kept(src@, ws, hs, fi, inside@, true, q);
        }
        assert forall|q: int| 0 <= q < ws * hs implies #[trigger] forward_ok(src@, ws, hs, outside@, false, q) by {
            assert(forward_ok(src@, ws, hs, fo, false, q));
            lemma_near_kept(src@, ws, hs, fo, outside@, false, q);
        }
    }
    let total = (w * h) as usize;
    let mut r: Vec<(i64, i64)> = Vec::with_capacity(total);
    let mut i: usize = 0;
    while i < total
        invariant
            bitmap_ok(src@, w as int, h as int),
            w == width,
            h == height,
            ws == w,
            hs == h,
            total == w * h,
            grid_ok(src@, w as int, h as int, inside@, true),
            grid_ok(src@, w as int, h as int, outside@, false),
            forall|q: int| 0 <= q < ws * hs ==> #[trigger] forward_ok(src@, ws, hs, inside@, true, q),
            forall|q: int| 0 <= q < ws * hs ==> #[trigger] forward_ok(src@, ws, hs, outside@, false, q),
            forall|q: int| 0 <= q < ws * hs ==> #[trigger] backward_ok(src@, ws, hs, inside@, true, q),
            forall|q: int| 0 <= q < ws * hs ==> #[trigger] backward_ok(src@, ws, hs, outside@, false, q),
            i <= total,
            r@.len() == i,
            forall|p: int| 0 <= p < i ==> points_to(src@, w as int, h as int, p, #[trigger] r@[p], !is_inside(src@[p])),
            forall|p: int| 0 <= p < i ==> (#[trigger] r@[p] == if is_inside(src@[p]) { outside@[p] } else { inside@[p] }),
            inside@ == swept(src@, ws, hs, true),
            outside@ == swept(src@, ws, hs, false),
        decreases total - i,
    {
        if src[i] > 127 {
            r.push(outside[i]);
        } else {
            r.push(inside[i]);
        }
        i = i + 1;
    }
    proof {
        assert forall|p: int, dx: int, dy: int| 0 <= p < width * height && -1 <= dx <= 1 && -1 <= dy <= 1 && (dx != 0 || dy != 0)
            implies #[trigger] near_ok(src@, width as int, height as int, r@, is_outside(src@[p]), p, dx, dy) by {
            if is_inside(src@[p]) {
                assert(forward_ok(src@, ws, hs, outside@, false, p));
                assert(backward_ok(src@, ws, hs, outside@, false, p));
                lemma_all_near(src@, ws, hs, outside@, false, p, dx, dy);
            } else {
                assert(forward_ok(src@, ws, hs, inside@, true, p));
                assert(backward_ok(src@, ws, hs, inside@, true, p));
                lemma_all_near(src@, ws, hs, inside@, true, p, dx, dy);
            }
        }
        assert(r@ =~= sdf_field(src@, ws, hs));
    }
    r
}

} // verus!

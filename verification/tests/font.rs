use wgpu_renderer::font::{blit_glyphs, GlyphBitmap};

fn glyph(ch: char, width: u32, height: u32, value: u8) -> GlyphBitmap {
    GlyphBitmap { ch, bitmap: vec![value; (width * height) as usize], width, height }
}

#[test]
fn glyphs_are_packed_on_shelves() {
    let glyphs = vec![glyph('a', 2, 2, 1), glyph('b', 2, 3, 2), glyph('c', 2, 2, 3)];
    let (placements, atlas) = blit_glyphs(&glyphs, 2, 8);
    let spots: Vec<(char, u32, u32)> = placements.iter().map(|p| (p.ch, p.x, p.y)).collect();
    assert_eq!(spots, vec![('a', 0, 0), ('b', 4, 0), ('c', 0, 5)]);
    assert_eq!(atlas.len(), 64);
    assert_eq!(atlas[0], 1);
    assert_eq!(atlas[1 * 8 + 1], 1);
    assert_eq!(atlas[2], 0);
    assert_eq!(atlas[2 * 8 + 4], 2);
    assert_eq!(atlas[5 * 8 + 1], 3);
    assert_eq!(atlas[4 * 8], 0);
    assert_eq!(atlas.iter().filter(|&&p| p != 0).count(), 4 + 6 + 4);
}

#[test]
fn bitmaps_are_copied_row_by_row() {
    let g = GlyphBitmap { ch: 'x', bitmap: vec![1, 2, 3, 4, 5, 6], width: 3, height: 2 };
    let (_, atlas) = blit_glyphs(&vec![g], 1, 4);
    assert_eq!(&atlas[0..4], &[1, 2, 3, 0]);
    assert_eq!(&atlas[4..8], &[4, 5, 6, 0]);
    assert_eq!(&atlas[8..16], &[0; 8]);
}

#[test]
fn empty_glyph_list_gives_blank_atlas() {
    let (placements, atlas) = blit_glyphs(&Vec::new(), 2, 3);
    assert!(placements.is_empty());
    assert_eq!(atlas, vec![0u8; 9]);
}

use wgpu_renderer::font::{packs, pad_bitmap, text_steps, try_blit_glyphs, GlyphStep};
use wgpu_renderer::sdf::{sdf_offsets, FAR};

#[test]
fn padding_surrounds_the_bitmap_with_blanks() {
    let (padded, w, h) = pad_bitmap(&vec![1, 2, 3, 4, 5, 6], 3, 2, 1);
    assert_eq!((w, h), (5, 4));
    assert_eq!(padded, vec![
        0, 0, 0, 0, 0,
        0, 1, 2, 3, 0,
        0, 4, 5, 6, 0,
        0, 0, 0, 0, 0,
    ]);
    let (same, w, h) = pad_bitmap(&vec![7, 8], 2, 1, 0);
    assert_eq!((same, w, h), (vec![7, 8], 2, 1));
}

#[test]
fn wide_glyph_runs_on_into_the_next_rows() {
    let wide = vec![GlyphBitmap { ch: 'w', bitmap: vec![1, 2, 3, 4, 5, 6], width: 6, height: 1 }];
    assert!(packs(&wide, 0, 4));
    let (placements, atlas) = try_blit_glyphs(&wide, 0, 4).unwrap();
    assert_eq!((placements[0].x, placements[0].y), (0, 0));
    assert_eq!(atlas, vec![1, 2, 3, 4, 5, 6, 0, 0, 0, 0, 0, 0, 0, 0, 0, 0]);
    // two rows of a glyph wider than the atlas: the second row overwrites the run-on
    let two_rows = vec![GlyphBitmap { ch: 't', bitmap: vec![1, 2, 3, 4, 5, 6, 7, 8, 9, 10], width: 5, height: 2 }];
    let (_, atlas) = blit_glyphs(&two_rows, 0, 4);
    assert_eq!(atlas, vec![1, 2, 3, 4, 6, 7, 8, 9, 10, 0, 0, 0, 0, 0, 0, 0]);
}

#[test]
fn oversized_glyphs_are_refused() {
    let big = vec![glyph('w', 5, 5, 1)];
    assert!(!packs(&big, 2, 4));
    assert!(try_blit_glyphs(&big, 2, 4).is_none());
    let short = vec![GlyphBitmap { ch: 's', bitmap: vec![1, 2], width: 2, height: 2 }];
    assert!(!packs(&short, 0, 4));
    let fine = vec![glyph('f', 2, 2, 1)];
    assert!(packs(&fine, 2, 4));
    let (placements, atlas) = try_blit_glyphs(&fine, 2, 4).unwrap();
    assert_eq!((placements[0].x, placements[0].y), (0, 0));
    assert_eq!(atlas[5], 1);
    // a zero-sized atlas still takes glyphs without pixels
    assert!(packs(&vec![glyph('e', 0, 3, 0)], 1, 0));
}

fn dist2(o: (i64, i64)) -> i64 {
    o.0 * o.0 + o.1 * o.1
}

#[test]
fn sdf_offsets_point_across_the_edge() {
    // a 4x3 bitmap whose two middle columns are inside the glyph
    let src: Vec<u8> = vec![
        0, 255, 255, 0,
        0, 255, 255, 0,
        0, 255, 255, 0,
    ];
    let offsets = sdf_offsets(&src, 4, 3);
    assert_eq!(offsets.len(), 12);
    for (i, &off) in offsets.iter().enumerate() {
        let (x, y) = ((i % 4) as i64, (i / 4) as i64);
        let (tx, ty) = (x + off.0, y + off.1);
        assert!((0..4).contains(&tx) && (0..3).contains(&ty));
        let target = src[(ty * 4 + tx) as usize];
        assert_ne!(target > 127, src[i] > 127);
        // every pixel here is next to the other side
        assert_eq!(dist2(off), 1);
    }
}

#[test]
fn sdf_offsets_without_other_side_point_far_away() {
    let src = vec![255u8; 4];
    let offsets = sdf_offsets(&src, 2, 2);
    for (i, &off) in offsets.iter().enumerate() {
        let (x, y) = ((i % 2) as i64, (i / 2) as i64);
        assert!(x + off.0 >= FAR && y + off.1 >= FAR);
    }
}

#[test]
fn sdf_offsets_of_a_single_dot() {
    let mut src = vec![0u8; 25];
    src[12] = 200;
    let offsets = sdf_offsets(&src, 5, 5);
    assert_eq!(offsets[12].0.abs() + offsets[12].1.abs(), 1);
    assert_eq!(offsets[0], (2, 2));
    assert_eq!(offsets[11], (1, 0));
    assert_eq!(offsets[6], (1, 1));
}

#[test]
fn sdf_offsets_reach_along_a_row() {
    let src: Vec<u8> = vec![255, 0, 0, 0, 0];
    let offsets = sdf_offsets(&src, 5, 1);
    assert_eq!(offsets, vec![(1, 0), (-1, 0), (-2, 0), (-3, 0), (-4, 0)]);
}

#[test]
fn packed_glyphs_never_overlap() {
    let sizes = [(3u32, 2u32), (1, 4), (4, 1), (2, 2), (3, 3), (1, 1), (2, 5), (4, 2)];
    let glyphs: Vec<GlyphBitmap> = sizes.iter().enumerate().map(|(i, &(w, h))| glyph((b'a' + i as u8) as char, w, h, i as u8 + 1)).collect();
    let (placements, atlas) = blit_glyphs(&glyphs, 1, 16);
    for i in 0..glyphs.len() {
        for j in (i + 1)..glyphs.len() {
            let (pi, pj) = (&placements[i], &placements[j]);
            assert!(pi.x + glyphs[i].width <= pj.x || pi.y + glyphs[i].height <= pj.y);
        }
    }
    let painted = atlas.iter().filter(|&&p| p != 0).count();
    assert_eq!(painted, sizes.iter().map(|&(w, h)| (w * h) as usize).sum::<usize>());
}

use wgpu_renderer::font::Font;
use wgpu_renderer::resources::{ResourceScope, ResourceType};

#[test]
fn fonts_are_global_resources_keyed_by_path() {
    let font = Font::new("assets/fonts/font.ttf");
    assert_eq!(font.path(), "assets/fonts/font.ttf");
    assert_eq!(font.atlas_size(), 1024);
    let id = font.get_id();
    assert_eq!(id.key, "assets/fonts/font.ttf");
    assert_eq!(id.scope, ResourceScope::Global);
    assert!(matches!(id.r_type, ResourceType::Font));
}

#[test]
fn text_steps_break_advance_draw_and_skip() {
    let text: Vec<char> = "a b\n?".chars().collect();
    let known: Vec<char> = vec!['a', 'b', ' '];
    assert_eq!(
        text_steps(&text, &known),
        vec![GlyphStep::Draw, GlyphStep::Advance, GlyphStep::Draw, GlyphStep::LineBreak, GlyphStep::Skip]
    );
    // a space without a glyph is skipped like any unknown character
    assert_eq!(text_steps(&vec![' '], &vec!['a']), vec![GlyphStep::Skip]);
}

#[test]
fn sdf_offsets_of_an_empty_bitmap_are_empty() {
    assert!(sdf_offsets(&[], 0, 5).is_empty());
    assert!(sdf_offsets(&[1, 2, 3], 3, 0).is_empty());
}

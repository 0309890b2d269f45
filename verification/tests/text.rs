use picofb::{DrawHandle, TextRenderer};

const MAGIC: u32 = 0x864a_b572;

/// Builds a PSF2 container: the 32-byte header followed by 128 glyph slots
/// of `bpg` bytes each, all zero except the slots listed in `glyphs`.
fn font_bytes(bpg: u32, height: u32, width: u32, glyphs: &[(usize, &[u8])]) -> Vec<u8> {
    let mut f = Vec::new();
    f.extend_from_slice(&MAGIC.to_le_bytes());
    f.extend_from_slice(&0u32.to_le_bytes()); // version
    f.extend_from_slice(&32u32.to_le_bytes()); // header size
    f.extend_from_slice(&0u32.to_le_bytes()); // flags
    f.extend_from_slice(&128u32.to_le_bytes()); // glyph count
    f.extend_from_slice(&bpg.to_le_bytes());
    f.extend_from_slice(&height.to_le_bytes());
    f.extend_from_slice(&width.to_le_bytes());
    f.resize(32 + 128 * bpg as usize, 0);
    for &(slot, rows) in glyphs {
        f[32 + slot * bpg as usize..32 + slot * bpg as usize + rows.len()].copy_from_slice(rows);
    }
    f
}

/// A small 8x16 'A': two dots, a bar, two full columns.
const GLYPH_A: [u8; 16] = [
    0x00, 0x00, 0x18, 0x24, 0x42, 0x42, 0x42, 0x7e, 0x42, 0x42, 0x42, 0x42, 0x00, 0x00, 0x00,
    0x00,
];

/// A question mark used for the non-ASCII substitution checks.
const GLYPH_QM: [u8; 16] = [
    0x00, 0x00, 0x3c, 0x42, 0x02, 0x04, 0x08, 0x10, 0x10, 0x00, 0x10, 0x10, 0x00, 0x00, 0x00,
    0x00,
];

fn test_font() -> TextRenderer {
    let bytes = font_bytes(16, 16, 8, &[(65, &GLYPH_A), (63, &GLYPH_QM), (66, &[0xff; 16])]);
    TextRenderer::new(&bytes).expect("valid font container")
}

fn pixel(d: &DrawHandle, x: u32, y: u32) -> u32 {
    d.as_slice()[(y * d.width() + x) as usize]
}

#[test]
fn loader_accepts_a_well_formed_container() {
    let bytes = font_bytes(16, 16, 8, &[(65, &GLYPH_A)]);
    let tr = TextRenderer::new(&bytes).unwrap();
    assert_eq!(tr.bytes_per_glyph, 16);
    assert_eq!(tr.height, 16);
    assert_eq!(tr.width, 8);
    assert_eq!(tr.bitmap, bytes[32..].to_vec());
}

#[test]
fn loader_rejects_a_wrong_magic_number() {
    let mut bytes = font_bytes(16, 16, 8, &[]);
    bytes[0] ^= 1;
    assert!(TextRenderer::new(&bytes).is_none());
}

#[test]
fn loader_rejects_a_wrong_version() {
    let mut bytes = font_bytes(16, 16, 8, &[]);
    bytes[4] = 1;
    assert!(TextRenderer::new(&bytes).is_none());
}

#[test]
fn loader_rejects_a_wrong_header_size() {
    let mut bytes = font_bytes(16, 16, 8, &[]);
    bytes[8] = 33;
    assert!(TextRenderer::new(&bytes).is_none());
}

#[test]
fn loader_rejects_a_truncated_container() {
    let bytes = font_bytes(16, 16, 8, &[]);
    assert!(TextRenderer::new(&bytes[..31]).is_none());
    assert!(TextRenderer::new(&bytes[..bytes.len() - 1]).is_none());
}

#[test]
fn loader_rejects_geometry_it_cannot_rasterize() {
    // More rows than bytes per glyph would index outside the glyph.
    let bytes = font_bytes(8, 16, 8, &[]);
    assert!(TextRenderer::new(&bytes).is_none());
    // A glyph of zero bytes has no bitmap at all.
    let bytes = font_bytes(0, 0, 8, &[]);
    assert!(TextRenderer::new(&bytes).is_none());
}

#[test]
fn rendering_a_matches_the_glyph_bitmap_exactly() {
    // Round trip for code point 65: bit `b` of row `r` set means pixel
    // `(7 - b, r)` holds the color with opaque alpha; a clear bit leaves
    // the pixel at its pre-render value.
    let tr = test_font();
    let mut d = DrawHandle::new(16, 20);
    d.set(3, 19, 0x0000_0001); // sentinel outside the glyph box
    tr.render(&mut d, 0, 0, 0x00ff00, "A");
    for (r, row) in GLYPH_A.iter().enumerate() {
        for b in 0..8u32 {
            let x = 7 - b;
            let expected = if row & (1 << b) != 0 { 0xff00_ff00 } else { 0 };
            assert_eq!(pixel(&d, x, r as u32), expected, "row {r} bit {b}");
        }
    }
    assert_eq!(pixel(&d, 3, 19), 0xff00_0001);
    for y in 16..19 {
        for x in 0..16 {
            assert_eq!(pixel(&d, x, y), 0);
        }
    }
}

#[test]
fn non_ascii_rasterizes_identically_to_question_mark() {
    let tr = test_font();
    let mut with_accent = DrawHandle::new(16, 16);
    let mut with_qm = DrawHandle::new(16, 16);
    tr.render(&mut with_accent, 2, 0, 0xabcdef, "\u{e9}");
    tr.render(&mut with_qm, 2, 0, 0xabcdef, "?");
    assert_eq!(with_accent.as_slice(), with_qm.as_slice());
    // And the substitute really drew something.
    assert!(with_qm.as_slice().iter().any(|&p| p == 0xffab_cdef));
}

#[test]
fn the_cursor_advances_one_glyph_width_per_character() {
    let tr = test_font();
    let mut d = DrawHandle::new(24, 16);
    tr.render(&mut d, 0, 0, 0x123456, "AA");
    for (r, row) in GLYPH_A.iter().enumerate() {
        for b in 0..8u32 {
            let expected = if row & (1 << b) != 0 { 0xff12_3456 } else { 0 };
            assert_eq!(pixel(&d, 7 - b, r as u32), expected);
            assert_eq!(pixel(&d, 8 + 7 - b, r as u32), expected);
        }
    }
}

#[test]
fn text_running_off_the_edge_is_clipped_not_an_error() {
    let tr = test_font();
    // 'B' is a solid 8x16 block; at x = 4 half of it falls off a narrow
    // surface and at y rows past the bottom are dropped.
    let mut d = DrawHandle::new(8, 8);
    tr.render(&mut d, 4, 0, 0xffffff, "B");
    for y in 0..8u32 {
        for x in 0..8u32 {
            let expected = if x >= 4 { 0xffff_ffff } else { 0 };
            assert_eq!(pixel(&d, x, y), expected);
        }
    }
}

#[test]
fn draw_text_draws_through_the_surface() {
    let tr = test_font();
    let mut d = DrawHandle::new(16, 16);
    d.draw_text(&tr, 0, 0, 0x00ff00, "A");
    let mut direct = DrawHandle::new(16, 16);
    tr.render(&mut direct, 0, 0, 0x00ff00, "A");
    assert_eq!(d.as_slice(), direct.as_slice());
}

#[test]
fn unlisted_glyph_slots_render_nothing() {
    let tr = test_font();
    let mut d = DrawHandle::new(16, 16);
    tr.render(&mut d, 0, 0, 0xffffff, "C");
    assert!(d.as_slice().iter().all(|&p| p == 0));
}

#[test]
fn rendering_empty_text_changes_nothing() {
    let tr = test_font();
    let mut d = DrawHandle::new(8, 8);
    d.set(1, 1, 0x123456);
    let before: Vec<u32> = d.as_slice().to_vec();
    tr.render(&mut d, 0, 0, 0xffffff, "");
    assert_eq!(d.as_slice(), before.as_slice());
}

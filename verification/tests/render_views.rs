use neso_gui::nametable::render_nametable;
use neso_gui::oam::render_oam;
use neso_gui::pattern::render_pattern_table;
use neso_gui::snapshot::DebugData;
use neso_gui::views::render_colors;
use neso_gui::views::render_palettes;

// colors[i] = i * 0x030201, so entry i has channels (3*i, 2*i, i).
fn test_colors() -> Vec<u32> {
    (0..64u32).map(|i| i * 0x030201).collect()
}

fn make_snapshot(
    palettes: Vec<u8>,
    chr: Vec<Vec<u8>>,
    nts: Vec<Vec<u8>>,
    oam: Vec<u8>,
    tall: bool,
    bg: usize,
) -> DebugData {
    DebugData::new(test_colors(), palettes, chr, nts, oam, tall, bg).unwrap()
}

fn plain_palettes() -> Vec<u8> {
    // Slot i holds color index i; slot 0 is the shared background color.
    (0..32).map(|i| i as u8).collect()
}

fn zero_chr() -> Vec<Vec<u8>> {
    (0..8).map(|_| vec![0u8; 0x400]).collect()
}

fn zero_nts() -> Vec<Vec<u8>> {
    (0..4).map(|_| vec![0u8; 0x800]).collect()
}

fn rgb_of_color_index(idx: u8) -> (u8, u8, u8) {
    (3 * idx, 2 * idx, idx)
}

fn at(buf: &[u8], width: usize, y: usize, x: usize) -> (u8, u8, u8) {
    let n = (y * width + x) * 3;
    (buf[n], buf[n + 1], buf[n + 2])
}

#[test]
fn colors_view_shows_every_entry() {
    let d = make_snapshot(plain_palettes(), zero_chr(), zero_nts(), vec![0u8; 0x100], false, 0);
    let buf = render_colors(&d);
    assert_eq!(buf.len(), 16 * 4 * 3);
    for i in 0..64 {
        let idx = i as u8;
        assert_eq!((buf[i * 3], buf[i * 3 + 1], buf[i * 3 + 2]), (3 * idx, 2 * idx, idx));
    }
}

#[test]
fn colors_view_render_is_deterministic() {
    // Rendering twice from the unchanged snapshot gives byte-identical
    // buffers.
    let d = make_snapshot(plain_palettes(), zero_chr(), zero_nts(), vec![0u8; 0x100], false, 0);
    let first = render_colors(&d);
    let second = render_colors(&d);
    assert_eq!(first, second);
}

#[test]
fn palettes_view_mirrors_slot_zero() {
    let mut palettes = plain_palettes();
    palettes[0] = 10;
    let d = make_snapshot(palettes, zero_chr(), zero_nts(), vec![0u8; 0x100], false, 0);
    let buf = render_palettes(&d);
    assert_eq!(buf.len(), 16 * 2 * 3);
    for i in 0..32 {
        let expected = if i % 4 == 0 {
            // Every group's slot 0 shows the mirrored background color.
            rgb_of_color_index(10)
        } else {
            rgb_of_color_index(i as u8)
        };
        assert_eq!((buf[i * 3], buf[i * 3 + 1], buf[i * 3 + 2]), expected);
    }
}

#[test]
fn pattern_table_gray_ramp() {
    let mut chr = zero_chr();
    // Tile 0 of table 0, row 0: column 0 decodes to 3, column 1 to 2.
    chr[0][0] = 0b1000_0000;
    chr[0][8] = 0b1100_0000;
    let d = make_snapshot(plain_palettes(), chr, zero_nts(), vec![0u8; 0x100], false, 0);
    let buf = render_pattern_table(&d, 0);
    assert_eq!(buf.len(), 128 * 128 * 3);
    assert_eq!(at(&buf, 128, 0, 0), (0, 0, 0));
    assert_eq!(at(&buf, 128, 0, 1), (85, 85, 85));
    assert_eq!(at(&buf, 128, 0, 2), (255, 255, 255));
    assert_eq!(at(&buf, 128, 1, 0), (255, 255, 255));
}

#[test]
fn pattern_table_selector_and_grid_position() {
    let mut chr = zero_chr();
    // Table 1 starts at bank 4.  Tile 17 sits at grid row 1, column 1;
    // its scanline 2 has pixel value 1 in column 0.
    chr[4][17 * 16 + 2] = 0b1000_0000;
    let d = make_snapshot(plain_palettes(), chr, zero_nts(), vec![0u8; 0x100], false, 0);
    let buf = render_pattern_table(&d, 1);
    assert_eq!(at(&buf, 128, 8 + 2, 8), (170, 170, 170));
    assert_eq!(at(&buf, 128, 8 + 2, 9), (255, 255, 255));
    let other = render_pattern_table(&d, 0);
    assert_eq!(at(&other, 128, 8 + 2, 8), (255, 255, 255));
}

#[test]
fn nametable_all_zero_shows_uniform_background() {
    // Tile 0 is all zeros, the attribute table is all zeros: every
    // pixel is transparent and shows the mirrored background color.
    let mut palettes = plain_palettes();
    palettes[0] = 33;
    let d = make_snapshot(palettes, zero_chr(), zero_nts(), vec![0u8; 0x100], false, 0);
    let buf = render_nametable(&d, 0);
    assert_eq!(buf.len(), 256 * 240 * 3);
    let expected = rgb_of_color_index(33);
    for y in 0..240 {
        for x in 0..256 {
            assert_eq!(at(&buf, 256, y, x), expected);
        }
    }
}

#[test]
fn nametable_attribute_changes_only_top_left_quadrant() {
    let mut chr = zero_chr();
    // Tile 0: every pixel decodes to value 1.
    for row in 0..8 {
        chr[0][row] = 0xFF;
    }
    let nts = zero_nts();
    let d1 = make_snapshot(
        plain_palettes(),
        chr.clone(),
        nts.clone(),
        vec![0u8; 0x100],
        false,
        0,
    );
    let mut nts2 = nts;
    // Set bits 0-1 of attribute byte 0: palette group 1 for the
    // top-left 2x2-tile quadrant.
    nts2[0][960] = 0b01;
    let d2 = make_snapshot(plain_palettes(), chr, nts2, vec![0u8; 0x100], false, 0);
    let buf1 = render_nametable(&d1, 0);
    let buf2 = render_nametable(&d2, 0);
    // Group 0, value 1 resolves through slot 1; group 1, value 1
    // through slot 5.
    let unchanged = rgb_of_color_index(1);
    let changed = rgb_of_color_index(5);
    for y in 0..240 {
        for x in 0..256 {
            assert_eq!(at(&buf1, 256, y, x), unchanged);
            let expected = if y < 16 && x < 16 { changed } else { unchanged };
            assert_eq!(at(&buf2, 256, y, x), expected);
        }
    }
}

#[test]
fn nametable_background_bank_selects_pattern_pair() {
    let mut chr = zero_chr();
    // Banks 4..8 form the second pattern-table pair; give its tile 0 a
    // visible scanline and leave the first pair blank.
    chr[4][0] = 0xFF;
    let d = make_snapshot(plain_palettes(), chr, zero_nts(), vec![0u8; 0x100], false, 1);
    let buf = render_nametable(&d, 0);
    // Scanline 0 of every tile row shows pixel value 1 (slot 1).
    assert_eq!(at(&buf, 256, 0, 0), rgb_of_color_index(1));
    assert_eq!(at(&buf, 256, 0, 255), rgb_of_color_index(1));
    assert_eq!(at(&buf, 256, 8, 0), rgb_of_color_index(1));
    // Other scanlines are transparent (slot 0).
    assert_eq!(at(&buf, 256, 1, 0), rgb_of_color_index(0));
}

#[test]
fn nametable_tile_index_addresses_pattern_memory() {
    let mut chr = zero_chr();
    // Tile 33 of the first pattern table: 33 * 16 = 528 lands in bank 0.
    chr[0][33 * 16] = 0b1000_0000;
    let mut nts = zero_nts();
    // Grid cell (row 2, col 5) of bank 1 shows tile 33.
    nts[1][2 * 32 + 5] = 33;
    let d = make_snapshot(plain_palettes(), chr, nts, vec![0u8; 0x100], false, 0);
    let buf = render_nametable(&d, 1);
    assert_eq!(at(&buf, 256, 16, 40), rgb_of_color_index(1));
    assert_eq!(at(&buf, 256, 16, 41), rgb_of_color_index(0));
    assert_eq!(at(&buf, 256, 0, 0), rgb_of_color_index(0));
}

#[test]
fn nametable_max_tile_index_reaches_last_chr_byte() {
    let mut chr = zero_chr();
    // Background on pair 1, tile index 255: the tile occupies the last
    // 16 bytes of pattern memory.  Scanline 7 of its low plane is the
    // 9th-to-last byte.
    chr[7][0x3F7] = 0x01;
    let mut nts = zero_nts();
    nts[0][0] = 255;
    let d = make_snapshot(plain_palettes(), chr, nts, vec![0u8; 0x100], false, 1);
    let buf = render_nametable(&d, 0);
    assert_eq!(at(&buf, 256, 7, 7), rgb_of_color_index(1));
    assert_eq!(at(&buf, 256, 7, 6), rgb_of_color_index(0));
}

#[test]
fn oam_tall_max_tile_index_reaches_last_chr_byte() {
    let mut chr = zero_chr();
    // Stored index 255: half 1, tiles 254 and 255.  Scanline 7 of the
    // second tile's high plane is the very last byte of pattern memory.
    chr[7][0x3FF] = 0x01;
    let mut oam = vec![0u8; 0x100];
    oam[1] = 255;
    let d = make_snapshot(plain_palettes(), chr, zero_nts(), oam, true, 0);
    let buf = render_oam(&d);
    // Sprite 0's second tile, bottom-right pixel: value 2, group 4.
    assert_eq!(at(&buf, 256, 8 + 7, 7), rgb_of_color_index(18));
    assert_eq!(at(&buf, 256, 8 + 7, 6), rgb_of_color_index(0));
}

#[test]
fn oam_small_sprites_read_other_pattern_table() {
    let mut chr = zero_chr();
    // With the background on pair 0, sprites read from the table at
    // bank 4.  Mark its tile 0 and leave table 0 blank.
    chr[4][0] = 0xFF;
    let d = make_snapshot(plain_palettes(), chr, zero_nts(), vec![0u8; 0x100], false, 0);
    let buf = render_oam(&d);
    assert_eq!(buf.len(), 256 * 32 * 3);
    // Sprite group 4, pixel value 1: slot 17.
    assert_eq!(at(&buf, 256, 0, 0), rgb_of_color_index(17));
    assert_eq!(at(&buf, 256, 1, 0), rgb_of_color_index(0));
}

#[test]
fn oam_small_sprites_with_background_on_second_pair() {
    let mut chr = zero_chr();
    // With the background on pair 1, sprites read from the table at
    // bank (4 * 1 + 4) mod 8 = 0.
    chr[0][0] = 0xFF;
    chr[4][8] = 0xFF;
    let d = make_snapshot(plain_palettes(), chr, zero_nts(), vec![0u8; 0x100], false, 1);
    let buf = render_oam(&d);
    // chr[0][0] gives pixel value 1 on scanline 0 (slot 17); the mark
    // in bank 4 would have given value 2 and is not read.
    assert_eq!(at(&buf, 256, 0, 0), rgb_of_color_index(17));
}

#[test]
fn oam_lower_tile_black_without_tall_sprites() {
    let mut chr = zero_chr();
    chr[4][0] = 0xFF;
    let d = make_snapshot(plain_palettes(), chr, zero_nts(), vec![0u8; 0x100], false, 0);
    let buf = render_oam(&d);
    // Rows 8..16 and 24..32 depict each sprite's absent second tile.
    for y in (8..16).chain(24..32) {
        for x in 0..256 {
            assert_eq!(at(&buf, 256, y, x), (0, 0, 0));
        }
    }
}

#[test]
fn oam_tall_sprite_stored_index_five() {
    let mut chr = zero_chr();
    // Stored index 5: pattern-table half 1 (banks 4..8), first tile 4,
    // second tile 5.
    chr[4][4 * 16] = 0xFF;  // tile 4, scanline 0: value 1
    chr[4][5 * 16 + 8] = 0xFF;  // tile 5, scanline 0: value 2
    // Decoys in half 0: would give value 3 if the half were wrong.
    chr[0][4 * 16] = 0xFF;
    chr[0][4 * 16 + 8] = 0xFF;
    chr[0][5 * 16] = 0xFF;
    chr[0][5 * 16 + 8] = 0xFF;
    let mut oam = vec![0u8; 0x100];
    oam[1] = 5;
    let d = make_snapshot(plain_palettes(), chr, zero_nts(), oam, true, 0);
    let buf = render_oam(&d);
    // First tile's scanline 0 at strip row 0: value 1, slot 17.
    assert_eq!(at(&buf, 256, 0, 0), rgb_of_color_index(17));
    // Second tile's scanline 0 at strip row 8: value 2, slot 18.
    assert_eq!(at(&buf, 256, 8, 0), rgb_of_color_index(18));
    // Other scanlines are transparent and mirror palette slot 0.
    assert_eq!(at(&buf, 256, 1, 0), rgb_of_color_index(0));
}

#[test]
fn oam_attribute_selects_sprite_group() {
    let mut chr = zero_chr();
    chr[4][0] = 0xFF;
    let mut oam = vec![0u8; 0x100];
    // Sprite 1: palette group 4 + 2 = 6.
    oam[4 + 2] = 0b10;
    let d = make_snapshot(plain_palettes(), chr, zero_nts(), oam, false, 0);
    let buf = render_oam(&d);
    // Sprite 1 occupies columns 8..16; value 1 in group 6 is slot 25.
    assert_eq!(at(&buf, 256, 0, 8), rgb_of_color_index(25));
    // Sprite 0 still uses group 4.
    assert_eq!(at(&buf, 256, 0, 0), rgb_of_color_index(17));
}

#[test]
fn oam_flip_flags_mirror_tiles() {
    let mut chr = zero_chr();
    // Tile 0 of the sprite table: only the top-left pixel is set.
    chr[4][0] = 0b1000_0000;
    let mut oam = vec![0u8; 0x100];
    oam[2] = 0x80;  // sprite 0: vertical flip
    oam[4 + 2] = 0x40;  // sprite 1: horizontal flip
    oam[8 + 2] = 0xC0;  // sprite 2: both flips
    let d = make_snapshot(plain_palettes(), chr, zero_nts(), oam, false, 0);
    let buf = render_oam(&d);
    let lit = rgb_of_color_index(17);
    // Transparent pixels mirror palette slot 0.
    let clear = rgb_of_color_index(0);
    // Vertical flip moves the pixel to the bottom row of the tile.
    assert_eq!(at(&buf, 256, 7, 0), lit);
    assert_eq!(at(&buf, 256, 0, 0), clear);
    // Horizontal flip moves it to the rightmost column.
    assert_eq!(at(&buf, 256, 0, 8 + 7), lit);
    assert_eq!(at(&buf, 256, 0, 8), clear);
    // Both flips move it to the bottom-right corner.
    assert_eq!(at(&buf, 256, 7, 16 + 7), lit);
    assert_eq!(at(&buf, 256, 0, 16), clear);
}

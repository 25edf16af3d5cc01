use vstd::prelude::*;
use crate::palette::color_bytes;
use crate::palette::color_channel;
use crate::palette::rgb_byte;
use crate::snapshot::DebugData;
use crate::tile::copy_tile;
use crate::tile::decode_tile;
use crate::tile::lemma_grid_index;
use crate::tile::pixel_value;
use crate::views::lemma_pixel_index;
use crate::views::lemma_rgb_index;

verus! {

/// How far the attribute byte of a 4x4-tile cell is shifted to bring
/// the 2-bit palette-group selector of the 2x2-tile quadrant holding
/// `(row, col)` into its low bits.
pub open spec fn attr_shift(row: int, col: int) -> u8 {
    ((((row / 2) % 2) * 4) + (((col / 2) % 2) * 2)) as u8
}

/// The tile index stored at grid cell `(row, col)` of a nametable bank.
pub open spec fn nt_tile_index(d: DebugData, bank: int, row: int, col: int) -> int {
    d.nametables@[bank * 0x800 + row * 32 + col] as int
}

/// The attribute byte covering grid cell `(row, col)`: the attribute
/// table is an 8x8 grid of bytes, one per 4x4-tile cell, stored after
/// the 960-byte tile-index grid.
pub open spec fn nt_attr_byte(d: DebugData, bank: int, row: int, col: int) -> u8 {
    d.nametables@[bank * 0x800 + 960 + (row / 4) * 8 + col / 4]
}

/// The palette group (0..4) selected for grid cell `(row, col)`.
pub open spec fn nt_group(d: DebugData, bank: int, row: int, col: int) -> int {
    ((nt_attr_byte(d, bank, row, col) >> attr_shift(row, col)) & 3) as int
}

/// Address within pattern memory of scanline `i` of the tile shown at
/// grid cell `(row, col)`: backgrounds read from the pattern table
/// selected by the snapshot's background pattern-table index.
pub open spec fn nt_chr_addr(d: DebugData, bank: int, row: int, col: int, i: int) -> int {
    d.background_chr_bank * 0x1000 + nt_tile_index(d, bank, row, col) * 16 + i
}

/// The 2-bit value of pixel `(y, x)` of a rendered nametable.
pub open spec fn nametable_pixel(d: DebugData, bank: int, y: int, x: int) -> u8 {
    pixel_value(
        d.chr@[nt_chr_addr(d, bank, y / 8, x / 8, y % 8)],
        d.chr@[nt_chr_addr(d, bank, y / 8, x / 8, y % 8) + 8],
        x % 8,
    )
}

/// The Nametable view: one nametable bank rendered as a 256x240 RGB24
/// image, row-major; every pixel is resolved through the palette with
/// the group its attribute quadrant selects.
pub open spec fn nametable_view(d: DebugData, bank: int) -> Seq<u8> {
    Seq::new(
        184320,
        |n: int|
            rgb_byte(
                d.colors@,
                d.palettes@,
                nt_group(d, bank, ((n / 3) / 256) / 8, ((n / 3) % 256) / 8),
                nametable_pixel(d, bank, (n / 3) / 256, (n / 3) % 256),
                n % 3,
            ),
    )
}

proof fn lemma_attr_group_bound(a: u8, s: u8)
    by (bit_vector)
    ensures
        ((a >> s) & 3) < 4,
{
}

/// Renders one nametable bank (0..4) from a snapshot.
#[verifier::loop_isolation(false)]
pub fn render_nametable(d: &DebugData, bank: usize) -> (buf: Vec<u8>)
    requires
        d.wf(),
        bank < 4,
    ensures
        buf@ == nametable_view(*d, bank as int),
{
    let mut buf: Vec<u8> = Vec::new();
    for row in 0..30usize
        invariant
            buf@.len() == row * 6144,
            forall|n: int|
                0 <= n < row * 6144 ==> #[trigger] buf@[n] == nametable_view(*d, bank as int)[n],
    {
        for i in 0..8usize
            invariant
                buf@.len() == row * 6144 + i * 768,
                forall|n: int|
                    0 <= n < row * 6144 + i * 768 ==> #[trigger] buf@[n] == nametable_view(
                        *d,
                        bank as int,
                    )[n],
        {
            for col in 0..32usize
                invariant
                    buf@.len() == row * 6144 + i * 768 + col * 24,
                    forall|n: int|
                        0 <= n < row * 6144 + i * 768 + col * 24 ==> #[trigger] buf@[n]
                            == nametable_view(*d, bank as int)[n],
            {
                let tile_index: usize = d.nametables[bank * 0x800 + row * 32 + col] as usize;
                let attr: u8 = d.nametables[bank * 0x800 + 960 + (row / 4) * 8 + col / 4];
                let shift: u8 = (((row / 2) % 2) * 4 + ((col / 2) % 2) * 2) as u8;
                let group: usize = ((attr >> shift) & 3) as usize;
                let base: usize = d.background_chr_bank * 0x1000 + tile_index * 16;
                let tile: Vec<u8> = copy_tile(&d.chr, base);
                let pixels: Vec<u8> = decode_tile(&tile, false, false);
                proof {
                    lemma_attr_group_bound(attr, shift);
                    assert(shift == attr_shift(row as int, col as int));
                    assert(group == nt_group(*d, bank as int, row as int, col as int));
                }
                for j in 0..8usize
                    invariant
                        tile@.len() == 16,
                        forall|m: int| 0 <= m < 16 ==> #[trigger] tile@[m] == d.chr@[base + m],
                        pixels@ == crate::tile::decoded_tile(tile@, false, false),
                        forall|k: int| 0 <= k < 64 ==> pixels@[k] < 4,
                        group < 4,
                        group == nt_group(*d, bank as int, row as int, col as int),
                        base == d.background_chr_bank * 0x1000 + tile_index * 16,
                        tile_index == nt_tile_index(*d, bank as int, row as int, col as int),
                        buf@.len() == row * 6144 + i * 768 + col * 24 + j * 3,
                        forall|n: int|
                            0 <= n < row * 6144 + i * 768 + col * 24 + j * 3 ==> #[trigger] buf@[n]
                                == nametable_view(*d, bank as int)[n],
                {
                    let v: u8 = pixels[i * 8 + j];
                    let c: u32 = d.resolve_color(group, v);
                    let (r, g, b) = color_bytes(c);
                    buf.push(r);
                    buf.push(g);
                    buf.push(b);
                    proof {
                        let bk: int = bank as int;
                        let y: int = row * 8 + i;
                        let x: int = col * 8 + j;
                        let p: int = y * 256 + x;
                        lemma_grid_index(row as int, i as int);
                        lemma_grid_index(col as int, j as int);
                        lemma_grid_index(i as int, j as int);
                        lemma_pixel_index(y, x, 256);
                        lemma_rgb_index(p, 0);
                        lemma_rgb_index(p, 1);
                        lemma_rgb_index(p, 2);
                        assert(nt_chr_addr(*d, bk, row as int, col as int, i as int) == base + i);
                        assert(pixels@[i * 8 + j] == pixel_value(
                            d.chr@[base + i],
                            d.chr@[base + i + 8],
                            j as int,
                        ));
                        assert(nametable_pixel(*d, bk, y, x) == v);
                        assert(row * 6144 + i * 768 + col * 24 + j * 3 == p * 3);
                        assert(nametable_view(*d, bk)[p * 3] == r);
                        assert(nametable_view(*d, bk)[p * 3 + 1] == g);
                        assert(nametable_view(*d, bk)[p * 3 + 2] == b);
                    }
                }
            }
        }
    }
    proof {
        assert(buf@ =~= nametable_view(*d, bank as int));
    }
    buf
}

/// A transparent pixel of a rendered nametable always shows the
/// mirrored background color, entry 0 of palette RAM, whatever the
/// attribute tables select.
pub proof fn lemma_nametable_background_mirror(d: DebugData, bank: int, y: int, x: int)
    requires
        d.wf(),
        0 <= bank < 4,
        0 <= y < 240,
        0 <= x < 256,
        nametable_pixel(d, bank, y, x) == 0,
    ensures
        forall|ch: int|
            0 <= ch < 3 ==> #[trigger] nametable_view(d, bank)[(y * 256 + x) * 3 + ch]
                == color_channel(d.colors@[d.palettes@[0] as int], ch),
{
    let p = y * 256 + x;
    lemma_pixel_index(y, x, 256);
    assert forall|ch: int| 0 <= ch < 3 implies #[trigger] nametable_view(d, bank)[p * 3 + ch]
        == color_channel(d.colors@[d.palettes@[0] as int], ch) by {
        lemma_rgb_index(p, ch);
    }
}

/// Two snapshots that are identical except possibly in the low two bits
/// of the first attribute byte of nametable bank `bank`.
pub open spec fn same_but_first_attribute(d1: DebugData, d2: DebugData, bank: int) -> bool {
    &&& d2.colors@ == d1.colors@
    &&& d2.palettes@ == d1.palettes@
    &&& d2.chr@ == d1.chr@
    &&& d2.oam@ == d1.oam@
    &&& d2.tall_sprites_enabled == d1.tall_sprites_enabled
    &&& d2.background_chr_bank == d1.background_chr_bank
    &&& forall|m: int|
        0 <= m < 0x2000 && m != bank * 0x800 + 960 ==> d1.nametables@[m] == d2.nametables@[m]
    &&& d1.nametables@[bank * 0x800 + 960] >> 2u8 == d2.nametables@[bank * 0x800 + 960] >> 2u8
}

proof fn lemma_attr_high_bits(a: u8, b: u8, s: u8)
    by (bit_vector)
    requires
        a >> 2u8 == b >> 2u8,
        s == 2 || s == 4 || s == 6,
    ensures
        (a >> s) & 3 == (b >> s) & 3,
{
}

/// Changing only bits 0 and 1 of the first attribute byte of a
/// nametable bank changes the rendered image only inside the top-left
/// 2x2-tile quadrant, and there only for pixels whose 2-bit value is
/// not 0: every other pixel keeps its exact color.
pub proof fn lemma_nametable_attribute_locality(
    d1: DebugData,
    d2: DebugData,
    bank: int,
    y: int,
    x: int,
)
    requires
        d1.wf(),
        d2.wf(),
        0 <= bank < 4,
        same_but_first_attribute(d1, d2, bank),
        0 <= y < 240,
        0 <= x < 256,
        !(y < 16 && x < 16) || nametable_pixel(d1, bank, y, x) == 0,
    ensures
        forall|ch: int|
            0 <= ch < 3 ==> #[trigger] nametable_view(d1, bank)[(y * 256 + x) * 3 + ch]
                == nametable_view(d2, bank)[(y * 256 + x) * 3 + ch],
{
    let p = y * 256 + x;
    let row = y / 8;
    let col = x / 8;
    lemma_pixel_index(y, x, 256);
    assert(0 <= row < 30 && 0 <= col < 32);
    assert(bank * 0x800 + row * 32 + col < bank * 0x800 + 960);
    assert(nt_tile_index(d2, bank, row, col) == nt_tile_index(d1, bank, row, col));
    assert(nametable_pixel(d2, bank, y, x) == nametable_pixel(d1, bank, y, x));
    let v = nametable_pixel(d1, bank, y, x);
    if v != 0 {
        assert(!(y < 16 && x < 16));
        if (row / 4) * 8 + col / 4 != 0 {
            assert(bank * 0x800 + 960 + (row / 4) * 8 + col / 4 != bank * 0x800 + 960);
            assert(bank * 0x800 + 960 + (row / 4) * 8 + col / 4 < 0x2000);
            assert(nt_attr_byte(d2, bank, row, col) == nt_attr_byte(d1, bank, row, col));
            assert(nt_group(d2, bank, row, col) == nt_group(d1, bank, row, col));
        } else {
            assert(row < 4 && col < 4);
            assert(row >= 2 || col >= 2);
            let s = attr_shift(row, col);
            assert(s == 2 || s == 4 || s == 6);
            lemma_attr_high_bits(
                nt_attr_byte(d1, bank, row, col),
                nt_attr_byte(d2, bank, row, col),
                s,
            );
            assert(nt_group(d2, bank, row, col) == nt_group(d1, bank, row, col));
        }
    }
    assert forall|ch: int| 0 <= ch < 3 implies #[trigger] nametable_view(d1, bank)[p * 3 + ch]
        == nametable_view(d2, bank)[p * 3 + ch] by {
        lemma_rgb_index(p, ch);
    }
}

} // verus!

use vstd::prelude::*;
use crate::snapshot::DebugData;
use crate::snapshot::PATTERN_TABLE_SIZE;
use crate::tile::copy_tile;
use crate::tile::decode_tile;
use crate::tile::lemma_grid_index;
use crate::tile::pixel_value;
use crate::views::lemma_pixel_index;
use crate::views::lemma_rgb_index;

verus! {

/// Address within pattern memory of scanline `y % 8` of the tile shown
/// at pixel `(y, x)` of a pattern-table image: table `table` holds a
/// 16x16 grid of 16-byte tiles.
pub open spec fn pattern_chr_addr(table: int, y: int, x: int) -> int {
    table * 0x1000 + ((y / 8) * 16 + x / 8) * 16 + y % 8
}

/// The 2-bit value of pixel `(y, x)` of a rendered pattern table.
pub open spec fn pattern_pixel(d: DebugData, table: int, y: int, x: int) -> u8 {
    pixel_value(
        d.chr@[pattern_chr_addr(table, y, x)],
        d.chr@[pattern_chr_addr(table, y, x) + 8],
        x % 8,
    )
}

/// The grayscale intensity of a 2-bit pixel value on the 4-level ramp:
/// 0 is brightest, 3 is darkest.
pub open spec fn gray_level(v: u8) -> u8 {
    (255 - 85 * v) as u8
}

/// The Pattern-table view: one 0x1000-byte pattern table rendered as a
/// 128x128 grayscale RGB24 image, row-major.  Raw tile data has no
/// palette context, so pixel values map straight to a gray ramp.
pub open spec fn pattern_table_view(d: DebugData, table: int) -> Seq<u8> {
    Seq::new(49152, |n: int| gray_level(pattern_pixel(d, table, (n / 3) / 128, (n / 3) % 128)))
}

/// Renders one pattern table (selector 0 or 1) from a snapshot.
#[verifier::loop_isolation(false)]
pub fn render_pattern_table(d: &DebugData, table: usize) -> (buf: Vec<u8>)
    requires
        d.wf(),
        table < 2,
    ensures
        buf@ == pattern_table_view(*d, table as int),
{
    let mut buf: Vec<u8> = Vec::new();
    for row in 0..16usize
        invariant
            buf@.len() == row * 3072,
            forall|n: int|
                0 <= n < row * 3072 ==> #[trigger] buf@[n] == pattern_table_view(
                    *d,
                    table as int,
                )[n],
    {
        for i in 0..8usize
            invariant
                buf@.len() == row * 3072 + i * 384,
                forall|n: int|
                    0 <= n < row * 3072 + i * 384 ==> #[trigger] buf@[n] == pattern_table_view(
                        *d,
                        table as int,
                    )[n],
        {
            for col in 0..16usize
                invariant
                    buf@.len() == row * 3072 + i * 384 + col * 24,
                    forall|n: int|
                        0 <= n < row * 3072 + i * 384 + col * 24 ==> #[trigger] buf@[n]
                            == pattern_table_view(*d, table as int)[n],
            {
                let base: usize = table * PATTERN_TABLE_SIZE + (row * 16 + col) * 16;
                let tile: Vec<u8> = copy_tile(&d.chr, base);
                let pixels: Vec<u8> = decode_tile(&tile, false, false);
                for j in 0..8usize
                    invariant
                        tile@.len() == 16,
                        forall|m: int| 0 <= m < 16 ==> #[trigger] tile@[m] == d.chr@[base + m],
                        pixels@ == crate::tile::decoded_tile(tile@, false, false),
                        forall|k: int| 0 <= k < 64 ==> pixels@[k] < 4,
                        buf@.len() == row * 3072 + i * 384 + col * 24 + j * 3,
                        forall|n: int|
                            0 <= n < row * 3072 + i * 384 + col * 24 + j * 3 ==> #[trigger] buf@[n]
                                == pattern_table_view(*d, table as int)[n],
                {
                    let v: u8 = pixels[i * 8 + j];
                    let g: u8 = 255 - 85 * v;
                    buf.push(g);
                    buf.push(g);
                    buf.push(g);
                    proof {
                        let t: int = table as int;
                        let y: int = row * 8 + i;
                        let x: int = col * 8 + j;
                        let p: int = y * 128 + x;
                        lemma_grid_index(row as int, i as int);
                        lemma_grid_index(col as int, j as int);
                        lemma_grid_index(i as int, j as int);
                        lemma_pixel_index(y, x, 128);
                        lemma_rgb_index(p, 0);
                        lemma_rgb_index(p, 1);
                        lemma_rgb_index(p, 2);
                        assert(pattern_chr_addr(t, y, x) == base + i);
                        assert(pixels@[i * 8 + j] == pixel_value(
                            d.chr@[base + i],
                            d.chr@[base + i + 8],
                            j as int,
                        ));
                        assert(pattern_pixel(*d, t, y, x) == v);
                        assert(g == gray_level(v));
                        assert(row * 3072 + i * 384 + col * 24 + j * 3 == p * 3);
                        assert(pattern_table_view(*d, t)[p * 3] == g);
                        assert(pattern_table_view(*d, t)[p * 3 + 1] == g);
                        assert(pattern_table_view(*d, t)[p * 3 + 2] == g);
                    }
                }
            }
        }
    }
    proof {
        assert(buf@ =~= pattern_table_view(*d, table as int));
    }
    buf
}

} // verus!

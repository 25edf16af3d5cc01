use vstd::prelude::*;
use vstd::arithmetic::div_mod::lemma_fundamental_div_mod;
use vstd::arithmetic::div_mod::lemma_fundamental_div_mod_converse;

verus! {

/// Source index for a flipped row or column: flipping reverses the
/// traversal order of the eight rows or columns of a tile.
pub open spec fn flip_index(k: int, flip: bool) -> int {
    if flip {
        7 - k
    } else {
        k
    }
}

/// The 2-bit value of the pixel in column `col` of a tile row whose
/// low-plane byte is `p0` and whose high-plane byte is `p1`.  Bit 7 of
/// each plane byte is the leftmost pixel of the row.
pub open spec fn pixel_value(p0: u8, p1: u8, col: int) -> u8 {
    ((p0 >> ((7 - col) as u8)) & 1) | (((p1 >> ((7 - col) as u8)) & 1) << 1)
}

/// The pixel written at output position `(row, col)` when a 16-byte tile
/// (bytes 0..8 the low plane, bytes 8..16 the high plane) is decoded with
/// the given orientation: the flips re-map which source row and column
/// are read.
pub open spec fn tile_pixel(tile: Seq<u8>, row: int, col: int, hflip: bool, vflip: bool) -> u8 {
    pixel_value(
        tile[flip_index(row, vflip)],
        tile[8 + flip_index(row, vflip)],
        flip_index(col, hflip),
    )
}

/// The full 8x8 grid of 2-bit pixel values of a decoded tile, row-major.
pub open spec fn decoded_tile(tile: Seq<u8>, hflip: bool, vflip: bool) -> Seq<u8> {
    Seq::new(64, |k: int| tile_pixel(tile, k / 8, k % 8, hflip, vflip))
}

/// Re-indexing of an 8x8 row-major grid by a horizontal and/or vertical
/// reflection.
pub open spec fn flip_grid(grid: Seq<u8>, hflip: bool, vflip: bool) -> Seq<u8> {
    Seq::new(64, |k: int| grid[flip_index(k / 8, vflip) * 8 + flip_index(k % 8, hflip)])
}

proof fn lemma_pixel_value_bits(p0: u8, p1: u8, s: u8)
    by (bit_vector)
    ensures
        (((p0 >> s) & 1) | (((p1 >> s) & 1) << 1)) < 4,
        p0 == 0 && p1 == 0 ==> (((p0 >> s) & 1) | (((p1 >> s) & 1) << 1)) == 0,
{
}

/// A decoded pixel is always a 2-bit value.
pub proof fn lemma_pixel_value_bound(p0: u8, p1: u8, col: int)
    ensures
        pixel_value(p0, p1, col) < 4,
{
    lemma_pixel_value_bits(p0, p1, (7 - col) as u8);
}

/// Zero plane bytes decode to the transparent pixel value 0.
pub proof fn lemma_pixel_value_zero(col: int)
    ensures
        pixel_value(0, 0, col) == 0,
{
    lemma_pixel_value_bits(0, 0, (7 - col) as u8);
}

/// Decomposition of a row-major 8x8 grid index.
pub proof fn lemma_grid_index(row: int, col: int)
    requires
        0 <= col < 8,
    ensures
        (row * 8 + col) / 8 == row,
        (row * 8 + col) % 8 == col,
{
    lemma_fundamental_div_mod_converse(row * 8 + col, 8, row, col);
}

/// Decodes a 16-byte tile (two 8-byte bit planes) into its 8x8 grid of
/// 2-bit pixel values, row-major, re-mapped through the requested
/// orientation: `hflip` reverses the columns and `vflip` reverses the
/// rows of the output.
pub fn decode_tile(tile: &Vec<u8>, hflip: bool, vflip: bool) -> (pixels: Vec<u8>)
    requires
        tile@.len() == 16,
    ensures
        pixels@ == decoded_tile(tile@, hflip, vflip),
        forall|k: int| 0 <= k < 64 ==> pixels@[k] < 4,
{
    let mut pixels: Vec<u8> = Vec::new();
    for row in 0..8usize
        invariant
            tile@.len() == 16,
            pixels@.len() == row * 8,
            forall|k: int|
                0 <= k < row * 8 ==> #[trigger] pixels@[k] == tile_pixel(
                    tile@,
                    k / 8,
                    k % 8,
                    hflip,
                    vflip,
                ),
            forall|k: int| 0 <= k < row * 8 ==> #[trigger] pixels@[k] < 4,
    {
        for col in 0..8usize
            invariant
                tile@.len() == 16,
                row < 8,
                pixels@.len() == row * 8 + col,
                forall|k: int|
                    0 <= k < row * 8 + col ==> #[trigger] pixels@[k] == tile_pixel(
                        tile@,
                        k / 8,
                        k % 8,
                        hflip,
                        vflip,
                    ),
                forall|k: int| 0 <= k < row * 8 + col ==> #[trigger] pixels@[k] < 4,
        {
            let src_row: usize = if vflip {
                7 - row
            } else {
                row
            };
            let src_col: usize = if hflip {
                7 - col
            } else {
                col
            };
            let p0: u8 = tile[src_row];
            let p1: u8 = tile[src_row + 8];
            let shift: u8 = (7 - src_col) as u8;
            let v: u8 = ((p0 >> shift) & 1) | (((p1 >> shift) & 1) << 1);
            proof {
                lemma_grid_index(row as int, col as int);
                lemma_pixel_value_bound(p0, p1, src_col as int);
                assert(src_row as int == flip_index(row as int, vflip));
                assert(src_col as int == flip_index(col as int, hflip));
                assert(v == tile_pixel(tile@, row as int, col as int, hflip, vflip));
            }
            pixels.push(v);
        }
    }
    proof {
        assert(pixels@ =~= decoded_tile(tile@, hflip, vflip));
    }
    pixels
}

/// Copies the 16 bytes of one tile out of a flat pattern-memory region.
pub fn copy_tile(src: &Vec<u8>, base: usize) -> (tile: Vec<u8>)
    requires
        base + 16 <= src@.len(),
    ensures
        tile@.len() == 16,
        forall|m: int| 0 <= m < 16 ==> #[trigger] tile@[m] == src@[base + m],
{
    let len: usize = src.len();
    let mut tile: Vec<u8> = Vec::new();
    for m in 0..16usize
        invariant
            base + 16 <= len,
            src@.len() == len,
            tile@.len() == m,
            forall|k: int| 0 <= k < m ==> #[trigger] tile@[k] == src@[base + k],
    {
        tile.push(src[base + m]);
    }
    tile
}

/// Decoding with an orientation equals decoding with the identity
/// orientation and then reflecting the output grid; in particular a
/// vertical flip reverses the row order exactly.
pub proof fn lemma_decoded_tile_flip(tile: Seq<u8>, hflip: bool, vflip: bool)
    requires
        tile.len() == 16,
    ensures
        decoded_tile(tile, hflip, vflip) == flip_grid(decoded_tile(tile, false, false), hflip, vflip),
        forall|row: int, col: int|
            0 <= row < 8 && 0 <= col < 8 ==> #[trigger] decoded_tile(tile, hflip, vflip)[row * 8
                + col] == decoded_tile(tile, false, false)[flip_index(row, vflip) * 8 + flip_index(
                col,
                hflip,
            )],
{
    let plain = decoded_tile(tile, false, false);
    let turned = decoded_tile(tile, hflip, vflip);
    assert forall|k: int| 0 <= k < 64 implies turned[k] == flip_grid(plain, hflip, vflip)[k] by {
        let row = k / 8;
        let col = k % 8;
        lemma_fundamental_div_mod(k, 8);
        let sr = flip_index(row, vflip);
        let sc = flip_index(col, hflip);
        lemma_grid_index(sr, sc);
        assert(plain[sr * 8 + sc] == tile_pixel(tile, sr, sc, false, false));
        assert(turned[k] == tile_pixel(tile, row, col, hflip, vflip));
    }
    assert(turned =~= flip_grid(plain, hflip, vflip));
    assert forall|row: int, col: int| 0 <= row < 8 && 0 <= col < 8 implies #[trigger] turned[row * 8
        + col] == plain[flip_index(row, vflip) * 8 + flip_index(col, hflip)] by {
        lemma_grid_index(row, col);
        lemma_grid_index(flip_index(row, vflip), flip_index(col, hflip));
    }
}

/// Reflecting an 8x8 grid twice with the same orientation is the
/// identity: a double horizontal (or vertical) flip restores the grid.
pub proof fn lemma_flip_grid_involution(grid: Seq<u8>, hflip: bool, vflip: bool)
    requires
        grid.len() == 64,
    ensures
        flip_grid(flip_grid(grid, hflip, vflip), hflip, vflip) == grid,
{
    let once = flip_grid(grid, hflip, vflip);
    let twice = flip_grid(once, hflip, vflip);
    assert forall|k: int| 0 <= k < 64 implies twice[k] == grid[k] by {
        let row = k / 8;
        let col = k % 8;
        lemma_fundamental_div_mod(k, 8);
        let sr = flip_index(row, vflip);
        let sc = flip_index(col, hflip);
        lemma_grid_index(sr, sc);
        assert(twice[k] == once[sr * 8 + sc]);
        assert(once[sr * 8 + sc] == grid[flip_index(sr, vflip) * 8 + flip_index(sc, hflip)]);
        assert(flip_index(sr, vflip) == row);
        assert(flip_index(sc, hflip) == col);
    }
    assert(twice =~= grid);
}

/// A tile whose plane bytes are all zero decodes to a grid of zero
/// pixel values, whatever the orientation.
pub proof fn lemma_zero_tile(tile: Seq<u8>, hflip: bool, vflip: bool)
    requires
        tile.len() == 16,
        forall|m: int| 0 <= m < 16 ==> tile[m] == 0,
    ensures
        forall|k: int| 0 <= k < 64 ==> #[trigger] decoded_tile(tile, hflip, vflip)[k] == 0,
{
    assert forall|k: int| 0 <= k < 64 implies #[trigger] decoded_tile(tile, hflip, vflip)[k]
        == 0 by {
        let row = k / 8;
        let col = k % 8;
        assert(tile[flip_index(row, vflip)] == 0);
        assert(tile[8 + flip_index(row, vflip)] == 0);
        lemma_pixel_value_zero(flip_index(col, hflip));
    }
}

} // verus!

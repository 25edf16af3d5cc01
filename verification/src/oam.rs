use vstd::prelude::*;
use crate::palette::color_bytes;
use crate::palette::rgb_byte;
use crate::snapshot::DebugData;
use crate::tile::copy_tile;
use crate::tile::decode_tile;
use crate::tile::flip_index;
use crate::tile::lemma_grid_index;
use crate::tile::pixel_value;
use crate::views::lemma_pixel_index;
use crate::views::lemma_rgb_index;

verus! {

/// Whether a sprite's attribute byte requests a vertical flip (bit 7).
pub open spec fn sprite_vflip(attr: u8) -> bool {
    attr & 0x80 != 0
}

/// Whether a sprite's attribute byte requests a horizontal flip (bit 6).
pub open spec fn sprite_hflip(attr: u8) -> bool {
    attr & 0x40 != 0
}

/// The palette group a sprite resolves through: sprite groups occupy
/// entries 4..8, offset by the low two attribute bits.
pub open spec fn sprite_group(attr: u8) -> int {
    4 + ((attr & 3) as int)
}

/// Base address in pattern memory of the pattern table a sprite's tiles
/// are fetched from.  With tall sprites the low bit of the stored tile
/// index selects the table; otherwise sprites read from the pattern
/// table of the bank pair the background is not using.
pub open spec fn sprite_chr_base(d: DebugData, stored: u8) -> int {
    if d.tall_sprites_enabled {
        ((stored & 1) as int) * 0x1000
    } else {
        ((4 * d.background_chr_bank + 4) % 8) * 0x400
    }
}

/// The effective tile index of tile `t` (0 or 1) of a sprite whose OAM
/// entry stores `stored`.  With tall sprites the stored index has its
/// low bit cleared for the first tile and set for the second; otherwise
/// the stored index is used as is.
pub open spec fn sprite_tile_index(d: DebugData, stored: u8, t: int) -> int {
    if d.tall_sprites_enabled {
        ((stored & 0xfe) as int) + t
    } else {
        stored as int
    }
}

/// Address within pattern memory of source scanline `i` of tile `t` of
/// a sprite.
pub open spec fn sprite_chr_addr(d: DebugData, stored: u8, t: int, i: int) -> int {
    sprite_chr_base(d, stored) + sprite_tile_index(d, stored, t) * 16 + i
}

/// The 2-bit value of output pixel `(i, j)` of tile `t` of sprite `s`:
/// the flips re-map which source scanline and column are read, within
/// each tile.
pub open spec fn sprite_pixel(d: DebugData, s: int, t: int, i: int, j: int) -> u8 {
    let stored = d.oam@[s * 4 + 1];
    let attr = d.oam@[s * 4 + 2];
    pixel_value(
        d.chr@[sprite_chr_addr(d, stored, t, flip_index(i, sprite_vflip(attr)))],
        d.chr@[sprite_chr_addr(d, stored, t, flip_index(i, sprite_vflip(attr))) + 8],
        flip_index(j, sprite_hflip(attr)),
    )
}

/// The OAM view: all 64 sprites as a 256x32 RGB24 strip, 32 sprites
/// across and two rows of sprites, each sprite two stacked 8x8 tiles
/// tall, in OAM order.  Without tall sprites the lower tile of each
/// sprite is left black.
pub open spec fn oam_view(d: DebugData) -> Seq<u8> {
    Seq::new(
        24576,
        |n: int|
            {
                let y = (n / 3) / 256;
                let x = (n / 3) % 256;
                let s = (y / 16) * 32 + x / 8;
                let t = (y % 16) / 8;
                if !d.tall_sprites_enabled && t == 1 {
                    0u8
                } else {
                    rgb_byte(
                        d.colors@,
                        d.palettes@,
                        sprite_group(d.oam@[s * 4 + 2]),
                        sprite_pixel(d, s, t, y % 8, x % 8),
                        n % 3,
                    )
                }
            },
    )
}

proof fn lemma_sprite_bits(a: u8)
    by (bit_vector)
    ensures
        (a & 1) <= 1,
        (a & 0xfe) <= 254,
        (a & 3) <= 3,
{
}

/// Renders the OAM view from a snapshot.
#[verifier::loop_isolation(false)]
#[verifier::rlimit(60)]
pub fn render_oam(d: &DebugData) -> (buf: Vec<u8>)
    requires
        d.wf(),
    ensures
        buf@ == oam_view(*d),
{
    let mut buf: Vec<u8> = Vec::new();
    for y in 0..32usize
        invariant
            buf@.len() == y * 768,
            forall|n: int| 0 <= n < y * 768 ==> #[trigger] buf@[n] == oam_view(*d)[n],
    {
        for col in 0..32usize
            invariant
                buf@.len() == y * 768 + col * 24,
                forall|n: int|
                    0 <= n < y * 768 + col * 24 ==> #[trigger] buf@[n] == oam_view(*d)[n],
        {
            let s: usize = (y / 16) * 32 + col;
            let t: usize = (y % 16) / 8;
            let i: usize = y % 8;
            let stored: u8 = d.oam[s * 4 + 1];
            let attr: u8 = d.oam[s * 4 + 2];
            proof {
                lemma_sprite_bits(stored);
                lemma_sprite_bits(attr);
            }
            if !d.tall_sprites_enabled && t == 1 {
                for j in 0..8usize
                    invariant
                        !d.tall_sprites_enabled && t == 1,
                        buf@.len() == y * 768 + col * 24 + j * 3,
                        forall|n: int|
                            0 <= n < y * 768 + col * 24 + j * 3 ==> #[trigger] buf@[n] == oam_view(
                                *d,
                            )[n],
                {
                    buf.push(0);
                    buf.push(0);
                    buf.push(0);
                    proof {
                        let x: int = col * 8 + j;
                        let p: int = y * 256 + x;
                        lemma_grid_index(col as int, j as int);
                        lemma_pixel_index(y as int, x, 256);
                        lemma_rgb_index(p, 0);
                        lemma_rgb_index(p, 1);
                        lemma_rgb_index(p, 2);
                        assert(y * 768 + col * 24 + j * 3 == p * 3);
                        assert(oam_view(*d)[p * 3] == 0);
                        assert(oam_view(*d)[p * 3 + 1] == 0);
                        assert(oam_view(*d)[p * 3 + 2] == 0);
                    }
                }
            } else {
                let vflip: bool = attr & 0x80 != 0;
                let hflip: bool = attr & 0x40 != 0;
                let group: usize = ((attr & 3) + 4) as usize;
                let base: usize = if d.tall_sprites_enabled {
                    ((stored & 1) as usize) * 0x1000
                } else {
                    ((4 * d.background_chr_bank + 4) % 8) * 0x400
                };
                let tile_number: usize = if d.tall_sprites_enabled {
                    ((stored & 0xfe) as usize) + t
                } else {
                    stored as usize
                };
                let tile_addr: usize = base + tile_number * 16;
                let tile: Vec<u8> = copy_tile(&d.chr, tile_addr);
                let pixels: Vec<u8> = decode_tile(&tile, hflip, vflip);
                proof {
                    assert(base == sprite_chr_base(*d, stored));
                    assert(tile_number == sprite_tile_index(*d, stored, t as int));
                    assert(group == sprite_group(attr));
                }
                for j in 0..8usize
                    invariant
                        tile@.len() == 16,
                        forall|m: int| 0 <= m < 16 ==> #[trigger] tile@[m] == d.chr@[tile_addr + m],
                        pixels@ == crate::tile::decoded_tile(tile@, hflip, vflip),
                        forall|k: int| 0 <= k < 64 ==> pixels@[k] < 4,
                        group == sprite_group(attr),
                        group < 8,
                        vflip == sprite_vflip(attr),
                        hflip == sprite_hflip(attr),
                        tile_addr == sprite_chr_base(*d, stored) + sprite_tile_index(
                            *d,
                            stored,
                            t as int,
                        ) * 16,
                        d.tall_sprites_enabled || t == 0,
                        buf@.len() == y * 768 + col * 24 + j * 3,
                        forall|n: int|
                            0 <= n < y * 768 + col * 24 + j * 3 ==> #[trigger] buf@[n] == oam_view(
                                *d,
                            )[n],
                {
                    let v: u8 = pixels[i * 8 + j];
                    let c: u32 = d.resolve_color(group, v);
                    let (r, g, b) = color_bytes(c);
                    buf.push(r);
                    buf.push(g);
                    buf.push(b);
                    proof {
                        let x: int = col * 8 + j;
                        let p: int = y * 256 + x;
                        lemma_grid_index(col as int, j as int);
                        lemma_grid_index(i as int, j as int);
                        lemma_pixel_index(y as int, x, 256);
                        lemma_rgb_index(p, 0);
                        lemma_rgb_index(p, 1);
                        lemma_rgb_index(p, 2);
                        let fi: int = flip_index(i as int, vflip);
                        assert(pixels@[i * 8 + j] == pixel_value(
                            tile@[fi],
                            tile@[8 + fi],
                            flip_index(j as int, hflip),
                        ));
                        assert(tile@[fi] == d.chr@[tile_addr + fi]);
                        assert(tile@[8 + fi] == d.chr@[tile_addr + fi + 8]);
                        assert(sprite_chr_addr(*d, stored, t as int, fi) == tile_addr + fi);
                        assert(sprite_pixel(*d, s as int, t as int, i as int, j as int) == v);
                        assert(y * 768 + col * 24 + j * 3 == p * 3);
                        assert(oam_view(*d)[p * 3] == r);
                        assert(oam_view(*d)[p * 3 + 1] == g);
                        assert(oam_view(*d)[p * 3 + 2] == b);
                    }
                }
            }
        }
    }
    proof {
        assert(buf@ =~= oam_view(*d));
    }
    buf
}

/// Without tall sprites, every byte a sprite's tile fetch reads lies in
/// the pattern table at bank `(4 * background + 4) mod 8` — the table
/// the background pair is not using — and never in the background's own
/// pattern table.
pub proof fn lemma_sprite_pattern_table(d: DebugData, stored: u8)
    requires
        d.wf(),
        !d.tall_sprites_enabled,
    ensures
        sprite_chr_base(d, stored) == ((4 * d.background_chr_bank + 4) % 8) * 0x400,
        sprite_chr_base(d, stored) == (1 - d.background_chr_bank) * 0x1000,
        forall|i: int|
            0 <= i < 8 ==> sprite_chr_base(d, stored) <= #[trigger] sprite_chr_addr(
                d,
                stored,
                0,
                i,
            ) && sprite_chr_addr(d, stored, 0, i) + 8 < sprite_chr_base(d, stored) + 0x1000,
        forall|i: int|
            0 <= i < 8 ==> !(d.background_chr_bank * 0x1000 <= #[trigger] sprite_chr_addr(
                d,
                stored,
                0,
                i,
            ) < d.background_chr_bank * 0x1000 + 0x1000),
        forall|i: int|
            0 <= i < 8 ==> !(d.background_chr_bank * 0x1000 <= #[trigger] sprite_chr_addr(
                d,
                stored,
                0,
                i,
            ) + 8 < d.background_chr_bank * 0x1000 + 0x1000),
{
}

/// With tall sprites, the low bit of the stored tile index selects the
/// pattern table, the first tile is the stored index with its low bit
/// cleared, and the second tile is the stored index with its low bit
/// set.
pub proof fn lemma_tall_sprite_addressing(d: DebugData, stored: u8)
    requires
        d.tall_sprites_enabled,
    ensures
        sprite_chr_base(d, stored) == ((stored & 1) as int) * 0x1000,
        sprite_tile_index(d, stored, 0) == (stored & 0xfe) as int,
        sprite_tile_index(d, stored, 1) == (stored | 1) as int,
{
    assert((stored & 0xfe) + 1 == (stored | 1)) by (bit_vector);
}

} // verus!

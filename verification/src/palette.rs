use vstd::prelude::*;
use crate::snapshot::DebugData;

verus! {

/// The palette RAM slot a (group, pixel value) pair resolves through.
/// Pixel value 0 always resolves through slot 0, whatever the group:
/// the four background groups mirror entry 0 for transparent pixels.
pub open spec fn resolved_color_index(palettes: Seq<u8>, group: int, v: u8) -> int {
    if v == 0 {
        palettes[0] as int
    } else {
        palettes[group * 4 + v] as int
    }
}

/// The 24-bit color a (group, pixel value) pair resolves to.
pub open spec fn resolved_color(colors: Seq<u32>, palettes: Seq<u8>, group: int, v: u8) -> u32 {
    colors[resolved_color_index(palettes, group, v)]
}

/// The red channel of a 24-bit packed 0xRRGGBB color.
pub open spec fn color_r(c: u32) -> u8 {
    ((c >> 16u32) & 0xff) as u8
}

/// The green channel of a 24-bit packed 0xRRGGBB color.
pub open spec fn color_g(c: u32) -> u8 {
    ((c >> 8u32) & 0xff) as u8
}

/// The blue channel of a 24-bit packed 0xRRGGBB color.
pub open spec fn color_b(c: u32) -> u8 {
    (c & 0xff) as u8
}

/// Channel `ch` (0 = red, 1 = green, 2 = blue) of a packed color.
pub open spec fn color_channel(c: u32, ch: int) -> u8 {
    if ch == 0 {
        color_r(c)
    } else if ch == 1 {
        color_g(c)
    } else {
        color_b(c)
    }
}

/// One byte of the RGB rendering of a resolved (group, pixel value)
/// pair.
pub open spec fn rgb_byte(
    colors: Seq<u32>,
    palettes: Seq<u8>,
    group: int,
    v: u8,
    ch: int,
) -> u8 {
    color_channel(resolved_color(colors, palettes, group, v), ch)
}

impl DebugData {
    /// Maps a palette-group index and a 2-bit pixel value to a 24-bit
    /// color.  A transparent pixel (value 0) resolves through palette
    /// RAM slot 0 regardless of the requested group; any other value
    /// resolves through slot `group * 4 + value`.
    pub fn resolve_color(&self, group: usize, v: u8) -> (c: u32)
        requires
            self.wf(),
            group < 8,
            v < 4,
        ensures
            c == resolved_color(self.colors@, self.palettes@, group as int, v),
            v == 0 ==> c == self.colors@[self.palettes@[0] as int],
            v != 0 ==> c == self.colors@[self.palettes@[group * 4 + v] as int],
    {
        let slot: usize = if v == 0 {
            0
        } else {
            group * 4 + (v as usize)
        };
        let color_index: usize = self.palettes[slot] as usize;
        self.colors[color_index]
    }

}

/// A tile whose plane bytes are all zero decodes to pixel value 0
/// everywhere, and every one of its pixels resolves to the mirrored
/// background color `colors[palette_ram[0]]`, whatever group and
/// orientation are requested.
pub proof fn lemma_zero_tile_shows_background(
    d: DebugData,
    tile: Seq<u8>,
    hflip: bool,
    vflip: bool,
    group: int,
)
    requires
        d.wf(),
        tile.len() == 16,
        forall|m: int| 0 <= m < 16 ==> tile[m] == 0,
        0 <= group < 8,
    ensures
        forall|k: int|
            0 <= k < 64 ==> #[trigger] crate::tile::decoded_tile(tile, hflip, vflip)[k] == 0,
        forall|k: int|
            0 <= k < 64 ==> resolved_color(
                d.colors@,
                d.palettes@,
                group,
                #[trigger] crate::tile::decoded_tile(tile, hflip, vflip)[k],
            ) == d.colors@[d.palettes@[0] as int],
{
    crate::tile::lemma_zero_tile(tile, hflip, vflip);
}

/// Splits a 24-bit packed color into its red, green, and blue bytes.
pub fn color_bytes(c: u32) -> (rgb: (u8, u8, u8))
    ensures
        rgb.0 == color_r(c),
        rgb.1 == color_g(c),
        rgb.2 == color_b(c),
{
    (((c >> 16u32) & 0xff) as u8, ((c >> 8u32) & 0xff) as u8, (c & 0xff) as u8)
}

} // verus!

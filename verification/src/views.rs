use vstd::prelude::*;
use vstd::arithmetic::div_mod::lemma_fundamental_div_mod_converse;
use crate::palette::color_bytes;
use crate::palette::color_channel;
use crate::palette::rgb_byte;
use crate::snapshot::DebugData;

verus! {

/// Decomposition of a flat RGB24 buffer offset into its pixel index and
/// channel.
pub proof fn lemma_rgb_index(p: int, ch: int)
    requires
        0 <= p,
        0 <= ch < 3,
    ensures
        (p * 3 + ch) / 3 == p,
        (p * 3 + ch) % 3 == ch,
{
    lemma_fundamental_div_mod_converse(p * 3 + ch, 3, p, ch);
}

/// Decomposition of a pixel index in a row-major image of width `w`
/// into its row and column.
pub proof fn lemma_pixel_index(y: int, x: int, w: int)
    requires
        0 <= x < w,
        0 <= y,
    ensures
        (y * w + x) / w == y,
        (y * w + x) % w == x,
{
    lemma_fundamental_div_mod_converse(y * w + x, w, y, x);
}

/// The Colors view: the 64 master color table entries as a 16x4 grid of
/// solid RGB24 cells, one byte triple per entry, row-major.
pub open spec fn colors_view(d: DebugData) -> Seq<u8> {
    Seq::new(192, |n: int| color_channel(d.colors@[n / 3], n % 3))
}

/// Renders the Colors view from a snapshot.
pub fn render_colors(d: &DebugData) -> (buf: Vec<u8>)
    requires
        d.wf(),
    ensures
        buf@ == colors_view(*d),
{
    let mut buf: Vec<u8> = Vec::new();
    for i in 0..64usize
        invariant
            d.wf(),
            buf@.len() == i * 3,
            forall|n: int| 0 <= n < i * 3 ==> #[trigger] buf@[n] == colors_view(*d)[n],
    {
        let (r, g, b) = color_bytes(d.colors[i]);
        buf.push(r);
        buf.push(g);
        buf.push(b);
        proof {
            lemma_rgb_index(i as int, 0);
            lemma_rgb_index(i as int, 1);
            lemma_rgb_index(i as int, 2);
        }
    }
    proof {
        assert(buf@ =~= colors_view(*d));
    }
    buf
}

/// Rendering the Colors view twice from an unchanged snapshot produces
/// byte-identical buffers: the view is a pure function of the snapshot.
pub proof fn lemma_colors_view_deterministic(d: DebugData, first: Seq<u8>, second: Seq<u8>)
    requires
        first == colors_view(d),
        second == colors_view(d),
    ensures
        first == second,
{
}

/// The Palette view: the 32 palette RAM entries as a 16x2 grid of solid
/// RGB24 cells.  Cell `i` shows the color of group `i / 4` and pixel
/// value `i % 4`, so every group's slot 0 shows the mirrored background
/// color.
pub open spec fn palettes_view(d: DebugData) -> Seq<u8> {
    Seq::new(96, |n: int| rgb_byte(d.colors@, d.palettes@, (n / 3) / 4, ((n / 3) % 4) as u8, n % 3))
}

/// Renders the Palette view from a snapshot.
pub fn render_palettes(d: &DebugData) -> (buf: Vec<u8>)
    requires
        d.wf(),
    ensures
        buf@ == palettes_view(*d),
{
    let mut buf: Vec<u8> = Vec::new();
    for i in 0..32usize
        invariant
            d.wf(),
            buf@.len() == i * 3,
            forall|n: int| 0 <= n < i * 3 ==> #[trigger] buf@[n] == palettes_view(*d)[n],
    {
        let group: usize = i / 4;
        let v: u8 = (i % 4) as u8;
        let c: u32 = d.resolve_color(group, v);
        let (r, g, b) = color_bytes(c);
        buf.push(r);
        buf.push(g);
        buf.push(b);
        proof {
            lemma_rgb_index(i as int, 0);
            lemma_rgb_index(i as int, 1);
            lemma_rgb_index(i as int, 2);
        }
    }
    proof {
        assert(buf@ =~= palettes_view(*d));
    }
    buf
}

} // verus!

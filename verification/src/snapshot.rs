use vstd::prelude::*;
use crate::error::Error;

verus! {

/// Number of entries in the master color table.
pub const COLOR_COUNT: usize = 64;

/// Bytes of palette RAM: 8 groups of 4 color-table indices.
pub const PALETTE_RAM_SIZE: usize = 32;

/// Bytes in one CHR (pattern data) bank.
pub const CHR_BANK_SIZE: usize = 0x400;

/// Number of CHR banks in a snapshot.
pub const CHR_BANK_COUNT: usize = 8;

/// Bytes in one 256-tile pattern table (four CHR banks).
pub const PATTERN_TABLE_SIZE: usize = 0x1000;

/// Bytes in one nametable bank: a 30x32 tile-index grid followed by a
/// 64-byte attribute table.
pub const NAMETABLE_BANK_SIZE: usize = 0x800;

/// Number of nametable banks in a snapshot.
pub const NAMETABLE_BANK_COUNT: usize = 4;

/// Bytes of object attribute memory: 64 sprite entries of 4 bytes.
pub const OAM_SIZE: usize = 0x100;

/// A read-only snapshot of the graphics memory of the emulated video
/// processor, taken once per displayed frame.  All regions are held by
/// value as plain bytes; the CHR and nametable banks are concatenated in
/// bank order.
pub struct DebugData {
    /// 64 colors, each a 24-bit packed 0xRRGGBB value.
    pub colors: Vec<u32>,
    /// 32 bytes, each an index into `colors`.
    pub palettes: Vec<u8>,
    /// 8 banks of 0x400 bytes of pattern data, concatenated.
    pub chr: Vec<u8>,
    /// 4 banks of 0x800 bytes of nametable data, concatenated.
    pub nametables: Vec<u8>,
    /// 256 bytes of object attribute memory.
    pub oam: Vec<u8>,
    /// Whether sprites are 8x16 pixels rather than 8x8.
    pub tall_sprites_enabled: bool,
    /// Which 0x1000-byte pattern table backgrounds read from: 0 or 1.
    pub background_chr_bank: usize,
}

impl DebugData {
    /// Well-formedness of a snapshot: every region has its fixed size,
    /// every palette RAM byte indexes the color table, and the
    /// background pattern-table selector is 0 or 1.
    pub open spec fn wf(&self) -> bool {
        &&& self.colors@.len() == 64
        &&& self.palettes@.len() == 32
        &&& forall|i: int| 0 <= i < 32 ==> self.palettes@[i] < 64
        &&& self.chr@.len() == 0x2000
        &&& self.nametables@.len() == 0x2000
        &&& self.oam@.len() == 0x100
        &&& self.background_chr_bank < 2
    }
}

/// Whether the raw regions handed over by the snapshot provider have the
/// shapes the data model demands.
pub open spec fn valid_regions(
    colors: Seq<u32>,
    palettes: Seq<u8>,
    chr_banks: Seq<Seq<u8>>,
    nametable_banks: Seq<Seq<u8>>,
    oam: Seq<u8>,
    background_chr_bank: usize,
) -> bool {
    &&& colors.len() == 64
    &&& palettes.len() == 32
    &&& forall|i: int| 0 <= i < 32 ==> palettes[i] < 64
    &&& chr_banks.len() == 8
    &&& forall|b: int| 0 <= b < 8 ==> #[trigger] chr_banks[b].len() == 0x400
    &&& nametable_banks.len() == 4
    &&& forall|b: int| 0 <= b < 4 ==> #[trigger] nametable_banks[b].len() == 0x800
    &&& oam.len() == 0x100
    &&& background_chr_bank < 2
}

impl DebugData {
    /// Assembles a snapshot from the raw memory regions, checking every
    /// bound once at this boundary: a region of the wrong shape is
    /// rejected loudly instead of being read out of range later.
    pub fn new(
        colors: Vec<u32>,
        palettes: Vec<u8>,
        chr_banks: Vec<Vec<u8>>,
        nametable_banks: Vec<Vec<u8>>,
        oam: Vec<u8>,
        tall_sprites_enabled: bool,
        background_chr_bank: usize,
    ) -> (r: Result<DebugData, Error>)
        ensures
            r is Ok <==> valid_regions(
                colors@,
                palettes@,
                chr_banks.deep_view(),
                nametable_banks.deep_view(),
                oam@,
                background_chr_bank,
            ),
            r matches Ok(d) ==> {
                &&& d.wf()
                &&& d.colors@ == colors@
                &&& d.palettes@ == palettes@
                &&& d.oam@ == oam@
                &&& d.tall_sprites_enabled == tall_sprites_enabled
                &&& d.background_chr_bank == background_chr_bank
                &&& forall|b: int, o: int|
                    0 <= b < 8 && 0 <= o < 0x400 ==> #[trigger] d.chr@[b * 0x400 + o]
                        == chr_banks.deep_view()[b][o]
                &&& forall|b: int, o: int|
                    0 <= b < 4 && 0 <= o < 0x800 ==> #[trigger] d.nametables@[b * 0x800 + o]
                        == nametable_banks.deep_view()[b][o]
            },
    {
        if colors.len() != COLOR_COUNT {
            return Result::Err(
                Error::from_description(
                    "taking memory snapshot".to_owned(),
                    "Expected 64 color table entries.".to_owned(),
                ),
            );
        }
        if palettes.len() != PALETTE_RAM_SIZE {
            return Result::Err(
                Error::from_description(
                    "taking memory snapshot".to_owned(),
                    "Expected 32 bytes of palette RAM.".to_owned(),
                ),
            );
        }
        let mut i: usize = 0;
        while i < PALETTE_RAM_SIZE
            invariant
                palettes@.len() == 32,
                i <= 32,
                forall|k: int| 0 <= k < i ==> palettes@[k] < 64,
            decreases 32 - i,
        {
            if palettes[i] >= 64 {
                return Result::Err(
                    Error::from_description(
                        "taking memory snapshot".to_owned(),
                        "Palette RAM byte out of color table range.".to_owned(),
                    ),
                );
            }
            i = i + 1;
        }
        if chr_banks.len() != CHR_BANK_COUNT {
            return Result::Err(
                Error::from_description(
                    "taking memory snapshot".to_owned(),
                    "Expected 8 CHR banks.".to_owned(),
                ),
            );
        }
        let mut b: usize = 0;
        while b < CHR_BANK_COUNT
            invariant
                chr_banks@.len() == 8,
                b <= 8,
                forall|k: int| 0 <= k < b ==> #[trigger] chr_banks.deep_view()[k].len() == 0x400,
            decreases 8 - b,
        {
            proof {
                assert(chr_banks.deep_view()[b as int].len() == chr_banks@[b as int]@.len());
            }
            if chr_banks[b].len() != CHR_BANK_SIZE {
                return Result::Err(
                    Error::from_description(
                        "taking memory snapshot".to_owned(),
                        "Expected CHR banks of 0x400 bytes.".to_owned(),
                    ),
                );
            }
            b = b + 1;
        }
        if nametable_banks.len() != NAMETABLE_BANK_COUNT {
            return Result::Err(
                Error::from_description(
                    "taking memory snapshot".to_owned(),
                    "Expected 4 nametable banks.".to_owned(),
                ),
            );
        }
        let mut b: usize = 0;
        while b < NAMETABLE_BANK_COUNT
            invariant
                nametable_banks@.len() == 4,
                b <= 4,
                forall|k: int|
                    0 <= k < b ==> #[trigger] nametable_banks.deep_view()[k].len() == 0x800,
            decreases 4 - b,
        {
            proof {
                let ghost k: int = b as int;
                assert(nametable_banks.deep_view()[k].len() == nametable_banks@[k]@.len());
            }
            if nametable_banks[b].len() != NAMETABLE_BANK_SIZE {
                return Result::Err(
                    Error::from_description(
                        "taking memory snapshot".to_owned(),
                        "Expected nametable banks of 0x800 bytes.".to_owned(),
                    ),
                );
            }
            b = b + 1;
        }
        if oam.len() != OAM_SIZE {
            return Result::Err(
                Error::from_description(
                    "taking memory snapshot".to_owned(),
                    "Expected 0x100 bytes of object attribute memory.".to_owned(),
                ),
            );
        }
        if background_chr_bank >= 2 {
            return Result::Err(
                Error::from_description(
                    "taking memory snapshot".to_owned(),
                    "Expected background pattern table selector 0 or 1.".to_owned(),
                ),
            );
        }
        let chr: Vec<u8> = flatten_banks(&chr_banks, CHR_BANK_SIZE);
        let nametables: Vec<u8> = flatten_banks(&nametable_banks, NAMETABLE_BANK_SIZE);
        Result::Ok(
            DebugData {
                colors,
                palettes,
                chr,
                nametables,
                oam,
                tall_sprites_enabled,
                background_chr_bank,
            },
        )
    }
}

proof fn lemma_bank_index_bound(k: int, p: int, b: int, size: int)
    requires
        0 <= k < b,
        0 <= p < size,
    ensures
        k * size + p < b * size,
{
    assert((k + 1) * size <= b * size) by (nonlinear_arith)
        requires
            0 <= k + 1 <= b,
            size >= 0,
    ;
    assert((k + 1) * size == k * size + size) by (nonlinear_arith);
}

/// Concatenates equally sized memory banks into one flat region, in
/// bank order.
fn flatten_banks(banks: &Vec<Vec<u8>>, bank_size: usize) -> (flat: Vec<u8>)
    requires
        forall|b: int| 0 <= b < banks@.len() ==> #[trigger] banks.deep_view()[b].len() == bank_size,
    ensures
        flat@.len() == banks@.len() * bank_size,
        forall|b: int, o: int|
            0 <= b < banks@.len() && 0 <= o < bank_size ==> #[trigger] flat@[b * bank_size + o]
                == banks.deep_view()[b][o],
{
    let mut flat: Vec<u8> = Vec::new();
    let mut b: usize = 0;
    while b < banks.len()
        invariant
            forall|k: int|
                0 <= k < banks@.len() ==> #[trigger] banks.deep_view()[k].len() == bank_size,
            b <= banks@.len(),
            flat@.len() == b * bank_size,
            forall|k: int, o: int|
                0 <= k < b && 0 <= o < bank_size ==> #[trigger] flat@[k * bank_size + o]
                    == banks.deep_view()[k][o],
        decreases banks@.len() - b,
    {
        let ghost len_before: int = flat@.len() as int;
        let mut o: usize = 0;
        while o < bank_size
            invariant
                forall|k: int|
                    0 <= k < banks@.len() ==> #[trigger] banks.deep_view()[k].len() == bank_size,
                b < banks@.len(),
                len_before == b * bank_size,
                o <= bank_size,
                flat@.len() == len_before + o,
                forall|k: int, p: int|
                    0 <= k < b && 0 <= p < bank_size ==> #[trigger] flat@[k * bank_size + p]
                        == banks.deep_view()[k][p],
                forall|p: int|
                    0 <= p < o ==> #[trigger] flat@[b * bank_size + p]
                        == banks.deep_view()[b as int][p],
            decreases bank_size - o,
        {
            proof {
                assert(banks.deep_view()[b as int].len() == banks@[b as int]@.len());
            }
            let byte: u8 = banks[b][o];
            proof {
                assert(banks.deep_view()[b as int][o as int] == banks@[b as int]@[o as int]);
            }
            flat.push(byte);
            o = o + 1;
            proof {
                assert forall|k: int, p: int|
                    0 <= k < b && 0 <= p < bank_size implies #[trigger] flat@[k * bank_size + p]
                    == banks.deep_view()[k][p] by {
                    lemma_bank_index_bound(k, p, b as int, bank_size as int);
                };
            }
        }
        proof {
            assert((b + 1) * bank_size == b * bank_size + bank_size) by (nonlinear_arith);
        }
        b = b + 1;
    }
    flat
}

} // verus!

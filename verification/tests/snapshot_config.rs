use neso_gui::config::get_config_path;
use neso_gui::config::get_default_data_path;
use neso_gui::config::ControllerType;
use neso_gui::error::Error;
use neso_gui::snapshot::DebugData;

fn valid_parts() -> (Vec<u32>, Vec<u8>, Vec<Vec<u8>>, Vec<Vec<u8>>, Vec<u8>) {
    let colors = vec![0u32; 64];
    let palettes = vec![0u8; 32];
    let chr: Vec<Vec<u8>> = (0..8).map(|_| vec![0u8; 0x400]).collect();
    let nts: Vec<Vec<u8>> = (0..4).map(|_| vec![0u8; 0x800]).collect();
    let oam = vec![0u8; 0x100];
    (colors, palettes, chr, nts, oam)
}

#[test]
fn snapshot_accepts_valid_regions() {
    let (colors, palettes, chr, nts, oam) = valid_parts();
    let d = DebugData::new(colors, palettes, chr, nts, oam, true, 1).unwrap();
    assert_eq!(d.colors.len(), 64);
    assert_eq!(d.chr.len(), 0x2000);
    assert_eq!(d.nametables.len(), 0x2000);
    assert_eq!(d.oam.len(), 0x100);
    assert!(d.tall_sprites_enabled);
    assert_eq!(d.background_chr_bank, 1);
}

#[test]
fn snapshot_flattens_banks_in_order() {
    let (colors, palettes, mut chr, mut nts, oam) = valid_parts();
    chr[3][7] = 0xAB;
    chr[7][0x3FF] = 0xCD;
    nts[2][100] = 0xEF;
    let d = DebugData::new(colors, palettes, chr, nts, oam, false, 0).unwrap();
    assert_eq!(d.chr[3 * 0x400 + 7], 0xAB);
    assert_eq!(d.chr[7 * 0x400 + 0x3FF], 0xCD);
    assert_eq!(d.nametables[2 * 0x800 + 100], 0xEF);
}

#[test]
fn snapshot_rejects_wrong_color_count() {
    let (_, palettes, chr, nts, oam) = valid_parts();
    let r = DebugData::new(vec![0u32; 63], palettes, chr, nts, oam, false, 0);
    assert!(r.is_err());
}

#[test]
fn snapshot_rejects_wrong_palette_size() {
    let (colors, _, chr, nts, oam) = valid_parts();
    let r = DebugData::new(colors, vec![0u8; 31], chr, nts, oam, false, 0);
    assert!(r.is_err());
}

#[test]
fn snapshot_rejects_palette_byte_out_of_range() {
    let (colors, mut palettes, chr, nts, oam) = valid_parts();
    palettes[13] = 64;
    let r = DebugData::new(colors, palettes, chr, nts, oam, false, 0);
    assert!(r.is_err());
}

#[test]
fn snapshot_rejects_wrong_chr_shape() {
    let (colors, palettes, _, nts, oam) = valid_parts();
    let chr7: Vec<Vec<u8>> = (0..7).map(|_| vec![0u8; 0x400]).collect();
    assert!(
        DebugData::new(colors.clone(), palettes.clone(), chr7, nts.clone(), oam.clone(), false, 0)
            .is_err()
    );
    let mut chr_short: Vec<Vec<u8>> = (0..8).map(|_| vec![0u8; 0x400]).collect();
    chr_short[5] = vec![0u8; 0x3FF];
    assert!(DebugData::new(colors, palettes, chr_short, nts, oam, false, 0).is_err());
}

#[test]
fn snapshot_rejects_wrong_nametable_shape() {
    let (colors, palettes, chr, _, oam) = valid_parts();
    let nts3: Vec<Vec<u8>> = (0..3).map(|_| vec![0u8; 0x800]).collect();
    assert!(
        DebugData::new(colors.clone(), palettes.clone(), chr.clone(), nts3, oam.clone(), false, 0)
            .is_err()
    );
    let mut nts_long: Vec<Vec<u8>> = (0..4).map(|_| vec![0u8; 0x800]).collect();
    nts_long[0] = vec![0u8; 0x801];
    assert!(DebugData::new(colors, palettes, chr, nts_long, oam, false, 0).is_err());
}

#[test]
fn snapshot_rejects_wrong_oam_size() {
    let (colors, palettes, chr, nts, _) = valid_parts();
    let r = DebugData::new(colors, palettes, chr, nts, vec![0u8; 0xFF], false, 0);
    assert!(r.is_err());
}

#[test]
fn snapshot_rejects_bad_background_selector() {
    let (colors, palettes, chr, nts, oam) = valid_parts();
    let r = DebugData::new(colors, palettes, chr, nts, oam, false, 2);
    assert!(r.is_err());
    match r {
        Err(e) => assert_eq!(e.details, "Expected background pattern table selector 0 or 1."),
        Ok(_) => unreachable!(),
    }
}

#[test]
fn error_keeps_fields() {
    let e = Error::new(
        "creating colors texture".to_string(),
        "out of memory".to_string(),
        "allocation of 49152 bytes failed".to_string(),
    );
    assert_eq!(e.context, "creating colors texture");
    assert_eq!(e.description, "out of memory");
    assert_eq!(e.details, "allocation of 49152 bytes failed");
}

#[test]
fn error_from_description_fills_description() {
    let e = Error::from_description("locking oam texture".to_string(), "lock failed".to_string());
    assert_eq!(e.context, "locking oam texture");
    assert_eq!(e.description, "a custom error");
    assert_eq!(e.details, "lock failed");
}

#[test]
fn config_path_explicit_wins() {
    let p = get_config_path(Some("/tmp/custom.toml".to_string()), "/home/u/.config".to_string());
    assert_eq!(p, "/tmp/custom.toml");
}

#[test]
fn config_path_defaults_under_config_home() {
    let p = get_config_path(None, "/home/u/.config".to_string());
    assert_eq!(p, "/home/u/.config/neso-gui/neso-gui.toml");
}

#[test]
fn default_data_path_under_data_home() {
    let p = get_default_data_path("/home/u/.local/share".to_string());
    assert_eq!(p, "/home/u/.local/share/neso-gui");
}

#[test]
fn controller_types_compare() {
    assert_eq!(ControllerType::Keyboard, ControllerType::Keyboard);
    assert_ne!(ControllerType::Keyboard, ControllerType::Controller);
    let c = ControllerType::Controller;
    assert_eq!(c, c.clone());
}

use snesgfx::color::Color;
use snesgfx::file_format::{FormatError, PaletteFile};
use snesgfx::list_items::{BGModeTwo, Bpp};
use snesgfx::palette::Palette;

fn bgr555_buffer() -> Vec<u8> {
    // 256 colors whose words all keep bit 15 clear
    let mut bytes = Vec::new();
    for i in 0..256u32 {
        let c = Color::new((i % 32) as u8, ((i / 8) % 32) as u8, (i % 29) as u8);
        let pair = c.encode();
        bytes.push(pair[0]);
        bytes.push(pair[1]);
    }
    bytes
}

#[test]
fn bgr555_decode_reads_every_word() {
    let bytes = bgr555_buffer();
    let p = Palette::decode(&bytes);
    assert_eq!(p.0.len(), 256);
    assert_eq!(p.0[0], Color::decode([bytes[0], bytes[1]]));
    assert_eq!(p.0[255], Color::decode([bytes[510], bytes[511]]));
}

#[test]
fn bgr555_encode_decode_round_trips() {
    let bytes = bgr555_buffer();
    let p = Palette::decode(&bytes);
    assert_eq!(p.encode(), bytes);
}

#[test]
fn bgr555_short_buffer_pads_with_black() {
    let p = Palette::decode(&[0x41, 0x0C]);
    assert_eq!(p.0[0].to_tuple(), (1, 2, 3));
    for i in 1..256 {
        assert_eq!(p.0[i].to_tuple(), (0, 0, 0));
    }
}

#[test]
fn bgr555_long_buffer_ignores_the_tail() {
    let mut bytes = bgr555_buffer();
    let plain = Palette::decode(&bytes);
    bytes.push(0xAA);
    bytes.push(0xBB);
    let extended = Palette::decode(&bytes);
    for i in 0..256 {
        assert_eq!(plain.0[i], extended.0[i]);
    }
}

#[test]
fn rgb24_wrong_sizes_are_rejected() {
    assert_eq!(Palette::decode_rgb24(&vec![0u8; 767]).err(), Some(FormatError::WrongSize));
    assert_eq!(Palette::decode_rgb24(&vec![0u8; 769]).err(), Some(FormatError::WrongSize));
    assert_eq!(Palette::decode_rgb24(&[]).err(), Some(FormatError::WrongSize));
    assert!(Palette::decode_rgb24(&vec![0u8; 768]).is_ok());
}

#[test]
fn rgb24_decode_quantizes_each_triple() {
    let mut bytes = vec![0u8; 768];
    bytes[0] = 255;
    bytes[1] = 128;
    bytes[2] = 7;
    bytes[765] = 16;
    bytes[766] = 24;
    bytes[767] = 32;
    let p = Palette::decode_rgb24(&bytes).unwrap();
    assert_eq!(p.0[0].to_tuple(), (31, 16, 0));
    assert_eq!(p.0[255].to_tuple(), (2, 3, 4));
}

#[test]
fn rgb24_encode_expands_each_channel() {
    let mut p = Palette::default();
    p.set(0, Color::new(31, 0, 16));
    let bytes = p.encode_rgb24();
    assert_eq!(bytes.len(), 768);
    assert_eq!(&bytes[0..3], &[255, 0, 16 * 8 + 16 / 4]);
}

#[test]
fn decode_with_selects_the_format() {
    let bgr = Palette::decode_with(&bgr555_buffer(), PaletteFile::BGR555).unwrap();
    assert_eq!(bgr.encode_with(PaletteFile::BGR555), bgr555_buffer());
    let err = Palette::decode_with(&vec![0u8; 100], PaletteFile::RGB24);
    assert_eq!(err.err(), Some(FormatError::WrongSize));
}

#[test]
fn set_reports_whether_the_slot_changed() {
    let mut p = Palette::decode(&[]);
    let red = Color::new(31, 0, 0);
    assert!(p.set(9, red));
    assert_eq!(p.0[9], red);
    assert!(!p.set(9, red));
    assert_eq!(p.0[9], red);
}

#[test]
fn slot_index_follows_the_mode_arithmetic() {
    // a 2bpp background with offset 32: 32 + 3*4 + 2 == 46
    assert_eq!(Palette::slot_index(Bpp::Two, BGModeTwo::M0BG2, 3, 2), 46);
    assert_eq!(Palette::slot_index(Bpp::Two, BGModeTwo::M0BG1, 0, 0), 0);
    assert_eq!(Palette::slot_index(Bpp::Two, BGModeTwo::M0BG4, 7, 3), 96 + 7 * 4 + 3);
    assert_eq!(Palette::slot_index(Bpp::Four, BGModeTwo::M0BG3, 2, 9), 2 * 16 + 9);
}

#[test]
fn palette_base_depends_on_depth_and_mode() {
    assert_eq!(Palette::palette_base(Bpp::Two, BGModeTwo::M0BG3), 64);
    assert_eq!(Palette::palette_base(Bpp::Four, BGModeTwo::M0BG3), 0);
    assert_eq!(BGModeTwo::M0BG2.palette_offset(), 32);
}

#[test]
fn default_palette_has_the_documented_pattern() {
    let p = Palette::default();
    assert_eq!(p.0.len(), 256);
    // band 0 ramps all channels together
    assert_eq!(p.0[0].to_tuple(), (0, 0, 0));
    assert_eq!(p.0[15].to_tuple(), (30, 30, 30));
    // band 1 drops red
    assert_eq!(p.0[17].to_tuple(), (0, 2, 2));
    // the upper half always has full blue
    assert_eq!(p.0[128].to_tuple(), (0, 0, 31));
    assert_eq!(p.0[200].to_tuple(), (2 * (200 % 16), 4 * ((200 / 16) % 8), 31));
}

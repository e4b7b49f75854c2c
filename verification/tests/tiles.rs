use snesgfx::file_format::FormatError;
use snesgfx::list_items::{Bpp, TileSize};
use snesgfx::tiles::{TileData, Tileset};

#[test]
fn two_bpp_decode_reads_bit_planes_msb_first() {
    // row 0: bit-plane 0 all set, bit-plane 1 all clear; other rows zero
    let mut block = [0u8; 16];
    block[0] = 0xFF;
    let tile = TileData::from_2bpp(&block).unwrap();
    for col in 0..8 {
        assert_eq!(tile.0[col], 1);
    }
    for i in 8..64 {
        assert_eq!(tile.0[i], 0);
    }
}

#[test]
fn two_bpp_decode_combines_both_planes() {
    // row 2: plane 0 = 0b1010_0000, plane 1 = 0b1100_0000
    let mut block = [0u8; 16];
    block[4] = 0b1010_0000;
    block[5] = 0b1100_0000;
    let tile = TileData::from_2bpp(&block).unwrap();
    assert_eq!(&tile.0[16..24], &[3, 2, 1, 0, 0, 0, 0, 0]);
}

#[test]
fn two_bpp_rejects_other_lengths() {
    assert!(TileData::from_2bpp(&[0u8; 15]).is_none());
    assert!(TileData::from_2bpp(&[0u8; 17]).is_none());
    assert!(TileData::from_2bpp(&[0u8; 32]).is_none());
}

#[test]
fn four_bpp_decode_uses_all_four_planes() {
    let mut block = [0u8; 32];
    // pixel (0, 0): bits 0 and 3 set => value 9
    block[0] = 0x80;
    block[17] = 0x80;
    // pixel (0, 1): bit 1 set => value 2
    block[1] = 0x40;
    let tile = TileData::from_4bpp(&block).unwrap();
    assert_eq!(tile.0[0], 0b1001);
    assert_eq!(tile.0[1], 0b0010);
    assert_eq!(tile.0[8], 0);
}

#[test]
fn four_bpp_rejects_other_lengths() {
    assert!(TileData::from_4bpp(&[0u8; 16]).is_none());
    assert!(TileData::from_4bpp(&[0u8; 33]).is_none());
}

#[test]
fn two_bpp_encode_inverts_decode() {
    let mut pixels = Vec::new();
    for i in 0..64u8 {
        pixels.push(i % 4);
    }
    let tile = TileData(pixels.clone());
    let block = tile.encode_2bpp();
    assert_eq!(block.len(), 16);
    let back = TileData::from_2bpp(&block).unwrap();
    assert_eq!(back.0, pixels);
}

#[test]
fn four_bpp_encode_inverts_decode() {
    let mut pixels = Vec::new();
    for i in 0..64u8 {
        pixels.push((i * 7) % 16);
    }
    let tile = TileData(pixels.clone());
    let block = tile.encode_4bpp();
    assert_eq!(block.len(), 32);
    let back = TileData::from_4bpp(&block).unwrap();
    assert_eq!(back.0, pixels);
}

#[test]
fn tileset_decode_splits_aligned_blocks() {
    let mut bytes = vec![0u8; 48];
    bytes[0] = 0xFF; // tile 0, row 0, plane 0
    bytes[33] = 0xFF; // tile 2, row 0, plane 1
    let ts = Tileset::decode(&bytes, Bpp::Two).unwrap();
    assert_eq!(ts.0.len(), 3);
    assert_eq!(ts.0[0].0[0], 1);
    assert_eq!(ts.0[1].0[0], 0);
    assert_eq!(ts.0[2].0[0], 2);
}

#[test]
fn tileset_decode_respects_the_depth_parameter() {
    let bytes = vec![0u8; 32];
    assert_eq!(Tileset::decode(&bytes, Bpp::Two).unwrap().0.len(), 2);
    assert_eq!(Tileset::decode(&bytes, Bpp::Four).unwrap().0.len(), 1);
}

#[test]
fn tileset_decode_rejects_empty_input() {
    assert_eq!(Tileset::decode(&[], Bpp::Two).err(), Some(FormatError::Empty));
    assert_eq!(Tileset::decode(&[], Bpp::Four).err(), Some(FormatError::Empty));
}

#[test]
fn tileset_decode_rejects_misaligned_input() {
    assert_eq!(Tileset::decode(&[0u8; 17], Bpp::Two).err(), Some(FormatError::Misaligned));
    assert_eq!(Tileset::decode(&[0u8; 16], Bpp::Four).err(), Some(FormatError::Misaligned));
}

#[test]
fn tileset_decode_rejects_too_many_tiles() {
    let bytes = vec![0u8; 16 * 1025];
    assert_eq!(Tileset::decode(&bytes, Bpp::Two).err(), Some(FormatError::TooManyTiles));
    let bytes = vec![0u8; 16 * 1024];
    assert_eq!(Tileset::decode(&bytes, Bpp::Two).unwrap().0.len(), 1024);
}

#[test]
fn tileset_get_is_bounds_checked() {
    let ts = Tileset::decode(&vec![0u8; 32], Bpp::Two).unwrap();
    assert!(ts.get(0).is_some());
    assert!(ts.get(1).is_some());
    assert!(ts.get(2).is_none());
    assert!(ts.get(1000).is_none());
}

#[test]
fn supports_2x2_needs_all_four_composite_tiles() {
    let ts = Tileset::decode(&vec![0u8; 16 * 20], Bpp::Two).unwrap();
    assert!(ts.supports_2x2(0));
    assert!(ts.supports_2x2(2));
    assert!(!ts.supports_2x2(3)); // 3 + 17 == 20, out of range
    assert!(!ts.supports_2x2(19));
}

#[test]
fn is_valid_idx_depends_on_tile_size() {
    let ts = Tileset::decode(&vec![0u8; 16 * 20], Bpp::Two).unwrap();
    assert!(ts.is_valid_idx(19, TileSize::Eight));
    assert!(!ts.is_valid_idx(20, TileSize::Eight));
    assert!(ts.is_valid_idx(2, TileSize::Sixteen));
    assert!(!ts.is_valid_idx(3, TileSize::Sixteen));
}

#[test]
fn default_tileset_holds_one_blank_tile() {
    let ts = Tileset::default();
    assert_eq!(ts.0.len(), 1);
    assert!(ts.0[0].0.iter().all(|&p| p == 0));
}

#[test]
fn bpp_values() {
    assert_eq!(Bpp::Two.bits(), 2);
    assert_eq!(Bpp::Four.bits(), 4);
    assert_eq!(Bpp::Two.to_val(), 4);
    assert_eq!(Bpp::Four.to_val(), 16);
    assert_eq!(Bpp::Two.tile_bytes(), 16);
    assert_eq!(Bpp::Four.tile_bytes(), 32);
    assert_eq!(Bpp::default(), Bpp::Two);
}

use snesgfx::color::Color;

#[test]
fn new_clamps_out_of_range_channels() {
    let c = Color::new(40, 0, 0);
    assert_eq!(c.red, 31);
    assert_eq!(c.green, 0);
    assert_eq!(c.blue, 0);
    let c = Color::new(31, 32, 255);
    assert_eq!((c.red, c.green, c.blue), (31, 31, 31));
}

#[test]
fn new_keeps_in_range_channels() {
    let c = Color::new(1, 2, 3);
    assert_eq!(c.to_tuple(), (1, 2, 3));
}

#[test]
fn with_channel_setters_clamp() {
    let c = Color::new(1, 2, 3);
    assert_eq!(c.with_red(40).red, 31);
    assert_eq!(c.with_green(33).green, 31);
    assert_eq!(c.with_blue(200).blue, 31);
    let d = c.with_red(7);
    assert_eq!((d.red, d.green, d.blue), (7, 2, 3));
}

#[test]
fn encode_packs_the_documented_layout() {
    // word = red | green << 5 | blue << 10 = 1 + 2*32 + 3*1024 = 0x0C41
    let c = Color::new(1, 2, 3);
    assert_eq!(c.encode(), [0x41, 0x0C]);
    assert_eq!(Color::new(0, 0, 0).encode(), [0x00, 0x00]);
    // all channels full: word = 0x7FFF, bit 15 zero
    assert_eq!(Color::new(31, 31, 31).encode(), [0xFF, 0x7F]);
}

#[test]
fn decode_unpacks_the_documented_layout() {
    let c = Color::decode([0x41, 0x0C]);
    assert_eq!(c.to_tuple(), (1, 2, 3));
}

#[test]
fn decode_ignores_the_unused_top_bit() {
    let with_bit = Color::decode([0x41, 0x8C]);
    let without_bit = Color::decode([0x41, 0x0C]);
    assert_eq!(with_bit, without_bit);
}

#[test]
fn decode_encode_round_trips_every_color() {
    for red in 0..32u8 {
        for green in 0..32u8 {
            for blue in 0..32u8 {
                let c = Color::new(red, green, blue);
                assert_eq!(Color::decode(c.encode()), c);
            }
        }
    }
}

#[test]
fn rgb24_expansion_is_idempotent_at_the_extremes() {
    let white = Color::from_rgb24(255, 255, 255);
    assert_eq!(white.to_tuple(), (31, 31, 31));
    assert_eq!(white.to_rgb24(), (255, 255, 255));
    let black = Color::from_rgb24(0, 0, 0);
    assert_eq!(black.to_tuple(), (0, 0, 0));
    assert_eq!(black.to_rgb24(), (0, 0, 0));
}

#[test]
fn rgb24_quantization_discards_low_bits() {
    let c = Color::from_rgb24(0x12, 0x34, 0x56);
    assert_eq!(c.to_tuple(), (0x12 >> 3, 0x34 >> 3, 0x56 >> 3));
}

#[test]
fn rgb24_expansion_replicates_high_bits() {
    let c = Color::new(0b10110, 0, 31);
    let (r, g, b) = c.to_rgb24();
    assert_eq!(r, 0b10110_101);
    assert_eq!(g, 0);
    assert_eq!(b, 255);
}

#[test]
fn rgb24_round_trip_from_five_bits_is_exact() {
    for v in 0..32u8 {
        let c = Color::new(v, v, v);
        let (r, g, b) = c.to_rgb24();
        assert_eq!(Color::from_rgb24(r, g, b), c);
    }
}

#[test]
fn default_color_is_black() {
    let c = Color::default();
    assert_eq!(c.to_tuple(), (0, 0, 0));
}

use rgb565_codec::Rgb565Pixel;

fn channels(word: u16) -> (u8, u8, u8) {
    let pixel = Rgb565Pixel(word);
    (pixel.red(), pixel.green(), pixel.blue())
}

#[test]
fn pure_red_expands_to_248() {
    assert_eq!(channels(0xF800), (248, 0, 0));
}

#[test]
fn pure_green_expands_to_252() {
    assert_eq!(channels(0x07E0), (0, 252, 0));
}

#[test]
fn pure_blue_expands_to_248() {
    assert_eq!(channels(0x001F), (0, 0, 248));
}

#[test]
fn white_and_black_pack_to_all_ones_and_all_zeros() {
    assert_eq!(Rgb565Pixel::from_rgb(255, 255, 255), Rgb565Pixel(0xFFFF));
    assert_eq!(Rgb565Pixel::from_rgb(0, 0, 0), Rgb565Pixel(0x0000));
}

#[test]
fn white_expands_without_filling_low_bits() {
    assert_eq!(channels(0xFFFF), (248, 252, 248));
    assert_eq!(channels(0x0000), (0, 0, 0));
}

#[test]
fn single_field_steps() {
    assert_eq!(channels(0x0800), (8, 0, 0));
    assert_eq!(channels(0x0020), (0, 4, 0));
    assert_eq!(channels(0x0001), (0, 0, 8));
    assert_eq!(channels(0x1234), (0x10, 0x44, 0xA0));
}

#[test]
fn packing_follows_the_mask_and_shift_formula() {
    assert_eq!(Rgb565Pixel::from_rgb(0x12, 0x34, 0x56).0, 0x11AA);
    assert_eq!(Rgb565Pixel::from_rgb(8, 4, 8).0, 0x0821);
    assert_eq!(Rgb565Pixel::from_rgb(7, 3, 7).0, 0x0000);
    assert_eq!(Rgb565Pixel::from_rgb(255, 0, 0).0, 0xF800);
    assert_eq!(Rgb565Pixel::from_rgb(0, 255, 0).0, 0x07E0);
    assert_eq!(Rgb565Pixel::from_rgb(0, 0, 255).0, 0x001F);
    for r in 0..=255u8 {
        for g in (0..=255u8).step_by(5) {
            for b in (0..=255u8).step_by(3) {
                let expected =
                    ((r as u16 & 0xF8) << 8) | ((g as u16 & 0xFC) << 3) | (b as u16 >> 3);
                assert_eq!(Rgb565Pixel::from_rgb(r, g, b).0, expected);
            }
        }
    }
}

#[test]
fn unpacking_a_packed_pixel_clears_the_low_bits() {
    for r in 0..=255u8 {
        for g in (0..=255u8).step_by(3) {
            for b in (0..=255u8).step_by(5) {
                let pixel = Rgb565Pixel::from_rgb(r, g, b);
                assert_eq!(pixel.red(), r & 0xF8);
                assert_eq!(pixel.green(), g & 0xFC);
                assert_eq!(pixel.blue(), b & 0xF8);
            }
        }
    }
}

#[test]
fn packing_an_unpacked_pixel_gives_it_back() {
    for word in 0..=u16::MAX {
        let pixel = Rgb565Pixel(word);
        assert_eq!(Rgb565Pixel::from_rgb(pixel.red(), pixel.green(), pixel.blue()), pixel);
    }
}

#[test]
fn rgb888_round_trip_is_lossy() {
    let pixel = Rgb565Pixel::from_rgb(255, 255, 255);
    assert_eq!((pixel.red(), pixel.green(), pixel.blue()), (248, 252, 248));
    let pixel = Rgb565Pixel::from_rgb(1, 2, 3);
    assert_eq!((pixel.red(), pixel.green(), pixel.blue()), (0, 0, 0));
}

#[test]
fn expanded_channels_have_zero_low_bits() {
    for word in 0..=u16::MAX {
        let pixel = Rgb565Pixel(word);
        assert_eq!(pixel.red() & 0x07, 0);
        assert_eq!(pixel.green() & 0x03, 0);
        assert_eq!(pixel.blue() & 0x07, 0);
        assert_eq!(pixel.red() as u16, 8 * (word >> 11));
        assert_eq!(pixel.green() as u16, 4 * ((word >> 5) & 0x3F));
        assert_eq!(pixel.blue() as u16, 8 * (word & 0x1F));
    }
}

#[test]
fn default_pixel_is_black() {
    assert_eq!(Rgb565Pixel::default(), Rgb565Pixel(0));
}

#[test]
fn pixels_compare_by_their_word() {
    assert_eq!(Rgb565Pixel(0x1234), Rgb565Pixel(0x1234));
    assert_ne!(Rgb565Pixel(0x1234), Rgb565Pixel(0x1235));
    let copy = Rgb565Pixel(7);
    let other = copy;
    assert_eq!(copy, other);
}

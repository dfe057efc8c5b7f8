use chip8::bits::{byte_to_pixels, pixels_to_byte};

#[test]
fn lib_pixels_to_byte() {
    let pixels = [true, false, false, true];

    assert_eq!(0x9, pixels_to_byte(&pixels));
}

#[test]
fn lib_byte_to_pixels() {
    let expected = [false, false, false, false, false, true, false, true];
    assert_eq!(expected, byte_to_pixels(0x5));
}

#[test]
fn main_pixels_to_byte() {
    let pixels = [true, false, false, true];

    assert_eq!(0x9, pixels_to_byte(&pixels));
}

#[test]
fn main_byte_to_pixels() {
    let expected = [false, false, false, false, false, true, false, true];
    assert_eq!(expected, byte_to_pixels(0x5));
}

#[test]
fn empty_row_is_zero() {
    assert_eq!(0, pixels_to_byte(&[]));
}

#[test]
fn leftmost_pixel_is_most_significant() {
    let mut pixels = [false; 8];
    pixels[0] = true;
    assert_eq!(0x80, pixels_to_byte(&pixels));
    assert_eq!(pixels, byte_to_pixels(0x80));
    assert_eq!([false, false, false, false, false, false, false, true], byte_to_pixels(1));
}

#[test]
fn long_run_keeps_low_eight_bits() {
    let pixels = [true, false, false, false, false, false, false, true, true];
    assert_eq!(0x03, pixels_to_byte(&pixels));
    assert_eq!(0xFF, pixels_to_byte(&[true; 20]));
}

#[test]
fn unpack_then_pack_is_identity() {
    for byte in 0..=255u8 {
        assert_eq!(byte, pixels_to_byte(&byte_to_pixels(byte)));
    }
}

#[test]
fn pack_then_unpack_is_identity() {
    for byte in 0..=255u8 {
        let mut pixels = [false; 8];
        for i in 0..8 {
            pixels[i] = byte & (0x80 >> i) != 0;
        }
        assert_eq!(pixels, byte_to_pixels(pixels_to_byte(&pixels)));
    }
}

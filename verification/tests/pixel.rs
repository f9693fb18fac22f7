use fb_console::pixel::PixelFormat;

#[test]
fn bytes_per_pixel_of_every_format() {
    assert_eq!(PixelFormat::RGB888.bytes_per_pixel(), 3);
    assert_eq!(PixelFormat::RGB565.bytes_per_pixel(), 2);
    assert_eq!(PixelFormat::RGBA8888.bytes_per_pixel(), 4);
    assert_eq!(PixelFormat::Gray8.bytes_per_pixel(), 1);
}

#[test]
fn supported_bit_depths_select_documented_formats() {
    assert_eq!(PixelFormat::from_bpp(8), Some(PixelFormat::Gray8));
    assert_eq!(PixelFormat::from_bpp(16), Some(PixelFormat::RGB565));
    assert_eq!(PixelFormat::from_bpp(24), Some(PixelFormat::RGB888));
    assert_eq!(PixelFormat::from_bpp(32), Some(PixelFormat::RGBA8888));
}

#[test]
fn unsupported_bit_depths_are_rejected() {
    for bpp in [0u8, 1, 4, 12, 15, 17, 23, 25, 31, 33, 64, 255] {
        assert_eq!(PixelFormat::from_bpp(bpp), None);
    }
}

#[test]
fn rgb888_pixel_is_three_equal_bytes() {
    let mut dest = vec![0u8; 3];
    PixelFormat::RGB888.write_pixel(&mut dest, 0, 200);
    assert_eq!(dest, vec![200, 200, 200]);
}

#[test]
fn rgb565_full_intensity_is_all_ones() {
    let mut dest = vec![0u8; 2];
    PixelFormat::RGB565.write_pixel(&mut dest, 0, 255);
    // 0xFFFF in little-endian byte order
    assert_eq!(dest, vec![0xff, 0xff]);
}

#[test]
fn rgb565_low_intensity_is_bit_truncated() {
    let mut dest = vec![0u8; 2];
    PixelFormat::RGB565.write_pixel(&mut dest, 0, 8);
    // ((8>>3)<<11) | ((8>>2)<<5) | (8>>3) = 0x0841, little-endian
    assert_eq!(dest, vec![0x41, 0x08]);
}

#[test]
fn rgba8888_pixel_is_opaque_gray() {
    let mut dest = vec![0u8; 4];
    PixelFormat::RGBA8888.write_pixel(&mut dest, 0, 10);
    assert_eq!(dest, vec![10, 10, 10, 255]);
}

#[test]
fn gray8_pixel_is_the_intensity() {
    let mut dest = vec![0u8; 1];
    PixelFormat::Gray8.write_pixel(&mut dest, 0, 42);
    assert_eq!(dest, vec![42]);
}

#[test]
fn write_pixel_leaves_other_bytes_alone() {
    let mut dest = vec![9u8; 8];
    PixelFormat::RGBA8888.write_pixel(&mut dest, 2, 10);
    assert_eq!(dest, vec![9, 9, 10, 10, 10, 255, 9, 9]);
}

use led_strip::{LedPixel, PixelKind, Rgb, Rgb16, Rgb16Order, RgbOrder, Rgbw, RgbwOrder};

// ── Constructor & constants ──────────────────────────────────────

#[test]
fn rgb_new_stores_channels() {
    let p = Rgb::new(0x10, 0x20, 0x30);
    assert_eq!(p.r, 0x10);
    assert_eq!(p.g, 0x20);
    assert_eq!(p.b, 0x30);
}

#[test]
fn rgb_black_is_all_zero() {
    assert_eq!(Rgb::black(), Rgb::new(0, 0, 0));
}

#[test]
fn rgb_white_is_all_max() {
    assert_eq!(Rgb::white(), Rgb::new(255, 255, 255));
}

#[test]
fn rgb_default_is_black() {
    assert_eq!(Rgb::default(), Rgb::black());
}

#[test]
fn rgbw_new_stores_channels() {
    let p = Rgbw::new(0x10, 0x20, 0x30, 0x40);
    assert_eq!(p.r, 0x10);
    assert_eq!(p.g, 0x20);
    assert_eq!(p.b, 0x30);
    assert_eq!(p.w, 0x40);
}

#[test]
fn rgbw_black_is_all_zero() {
    assert_eq!(Rgbw::black(), Rgbw::new(0, 0, 0, 0));
}

#[test]
fn rgbw_white_is_all_max() {
    assert_eq!(Rgbw::white(), Rgbw::new(255, 255, 255, 255));
}

#[test]
fn rgbw_default_is_black() {
    assert_eq!(Rgbw::default(), Rgbw::black());
}

#[test]
fn rgb16_new_stores_channels() {
    let p = Rgb16::new(0x1122, 0x3344, 0x5566);
    assert_eq!(p.r, 0x1122);
    assert_eq!(p.g, 0x3344);
    assert_eq!(p.b, 0x5566);
}

#[test]
fn rgb16_black_is_all_zero() {
    assert_eq!(Rgb16::black(), Rgb16::new(0, 0, 0));
}

#[test]
fn rgb16_white_is_all_max() {
    assert_eq!(Rgb16::white(), Rgb16::new(65535, 65535, 65535));
}

#[test]
fn rgb16_default_is_black() {
    assert_eq!(Rgb16::default(), Rgb16::black());
}

// ── Encode: all color orders ────────────────────────────────────

#[test]
fn rgb_encode_respects_rgb_order() {
    let mut out = [0_u8; 3];
    Rgb::new(0x11, 0x22, 0x33).encode(RgbOrder::Rgb, &mut out);
    assert_eq!(out, [0x11, 0x22, 0x33]);
}

#[test]
fn rgb_encode_respects_grb_order() {
    let mut out = [0_u8; 3];
    Rgb::new(0x11, 0x22, 0x33).encode(RgbOrder::Grb, &mut out);
    assert_eq!(out, [0x22, 0x11, 0x33]);
}

#[test]
fn rgbw_encode_respects_rgbw_order() {
    let mut out = [0_u8; 4];
    Rgbw::new(0x11, 0x22, 0x33, 0x44).encode(RgbwOrder::Rgbw, &mut out);
    assert_eq!(out, [0x11, 0x22, 0x33, 0x44]);
}

#[test]
fn rgbw_encode_respects_grbw_order() {
    let mut out = [0_u8; 4];
    Rgbw::new(0x11, 0x22, 0x33, 0x44).encode(RgbwOrder::Grbw, &mut out);
    assert_eq!(out, [0x22, 0x11, 0x33, 0x44]);
}

#[test]
fn rgb16_encode_respects_rgb_order() {
    let mut out = [0_u8; 6];
    Rgb16::new(0x1122, 0x3344, 0x5566).encode(Rgb16Order::Rgb, &mut out);
    // big-endian: 0x1122 → [0x11, 0x22]
    assert_eq!(out, [0x11, 0x22, 0x33, 0x44, 0x55, 0x66]);
}

#[test]
fn rgb16_encode_respects_grb_order() {
    let mut out = [0_u8; 6];
    Rgb16::new(0x1122, 0x3344, 0x5566).encode(Rgb16Order::Grb, &mut out);
    assert_eq!(out, [0x33, 0x44, 0x11, 0x22, 0x55, 0x66]);
}

// ── KIND & BYTES_PER_PIXEL ──────────────────────────────────────

#[test]
fn pixel_kind_discriminants() {
    assert_eq!(Rgb::KIND, PixelKind::Rgb);
    assert_eq!(Rgbw::KIND, PixelKind::Rgbw);
    assert_eq!(Rgb16::KIND, PixelKind::Rgb16);
}

#[test]
fn bytes_per_pixel_values() {
    assert_eq!(Rgb::BYTES_PER_PIXEL, 3);
    assert_eq!(Rgbw::BYTES_PER_PIXEL, 4);
    assert_eq!(Rgb16::BYTES_PER_PIXEL, 6);
}

// ── Further cases ───────────────────────────────────────────────

#[test]
fn encode_leaves_bytes_after_the_pixel_untouched() {
    let mut out = [0xAA_u8; 5];
    Rgb::new(1, 2, 3).encode(RgbOrder::Rgb, &mut out);
    assert_eq!(out, [1, 2, 3, 0xAA, 0xAA]);
}

#[test]
fn off_pixels_are_all_zero() {
    assert_eq!(<Rgb as LedPixel>::off(), Rgb::new(0, 0, 0));
    assert_eq!(<Rgbw as LedPixel>::off(), Rgbw::new(0, 0, 0, 0));
    assert_eq!(<Rgb16 as LedPixel>::off(), Rgb16::new(0, 0, 0));
}

#[test]
fn rgb16_encode_splits_high_and_low_bytes() {
    let mut out = [0_u8; 6];
    Rgb16::new(0xFF00, 0x00FF, 0x0102).encode(Rgb16Order::Rgb, &mut out);
    assert_eq!(out, [0xFF, 0x00, 0x00, 0xFF, 0x01, 0x02]);
}

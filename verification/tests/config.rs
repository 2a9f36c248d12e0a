use led_strip::{LedStripConfig, Rgb, Rgb16Order, RgbOrder, RgbwOrder, Ws2812B};

#[test]
fn ws2812b_config_defaults_to_grb() {
    let cfg = LedStripConfig::ws2812b(60);
    assert_eq!(cfg.len(), 60);
    assert!(!cfg.is_empty());
    assert_eq!(cfg.color_order(), RgbOrder::Grb);
    assert_eq!(cfg.bytes_per_pixel(), 3);
    assert_eq!(cfg.frame_len_bytes(), 180);
    assert_eq!(cfg.reset_ns(), 50_000);
}

#[test]
fn ws2811_config_defaults_to_rgb() {
    let cfg = LedStripConfig::ws2811(100);
    assert_eq!(cfg.len(), 100);
    assert_eq!(cfg.color_order(), RgbOrder::Rgb);
    assert_eq!(cfg.reset_ns(), 50_000);
}

#[test]
fn sk6812_config_defaults_to_grbw() {
    let cfg = LedStripConfig::sk6812(30);
    assert_eq!(cfg.len(), 30);
    assert_eq!(cfg.color_order(), RgbwOrder::Grbw);
    assert_eq!(cfg.bytes_per_pixel(), 4);
    assert_eq!(cfg.frame_len_bytes(), 120);
    assert_eq!(cfg.reset_ns(), 80_000);
}

#[test]
fn ws2816_config_defaults_to_grb() {
    let cfg = LedStripConfig::ws2816(10);
    assert_eq!(cfg.len(), 10);
    assert_eq!(cfg.color_order(), Rgb16Order::Grb);
    assert_eq!(cfg.bytes_per_pixel(), 6);
    assert_eq!(cfg.frame_len_bytes(), 60);
    assert_eq!(cfg.reset_ns(), 300_000);
}

#[test]
fn custom_color_order_overrides_default() {
    let cfg = LedStripConfig::<Rgb, Ws2812B>::new(5, RgbOrder::Rgb);
    assert_eq!(cfg.color_order(), RgbOrder::Rgb);
}

#[test]
fn is_empty_true_for_zero_len() {
    let cfg = LedStripConfig::ws2812b(0);
    assert!(cfg.is_empty());
    assert_eq!(cfg.len(), 0);
    assert_eq!(cfg.frame_len_bytes(), 0);
}

#[test]
fn config_copy_keeps_fields() {
    let cfg = LedStripConfig::ws2812b(7);
    let copy = cfg;
    assert_eq!(copy.len(), cfg.len());
    assert_eq!(copy.color_order(), cfg.color_order());
}

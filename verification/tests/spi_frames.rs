use led_strip::{
    BitOrder, Rgb16, Rgb16Order, RgbwOrder, Ws2811, Ws2816,
    LedStripConfig, LedStripError, PulseTiming, Rgb, Rgbw, RgbOrder, Sk6812, SingleWireProtocol,
    SpiCodec, SpiCodecPlanError, SpiEncodingPlan, TimingEdge, WireCodec, Ws2812B,
};

const GREEN_OFF_RED_ON: [u8; 9] = [0x92, 0x49, 0x24, 0xDB, 0x6D, 0xB6, 0x92, 0x49, 0x24];

#[test]
fn ws2812b_red_pixel_frame_is_exact() {
    // GRB order: wire bytes 0x00, 0xFF, 0x00. Each zero bit is 100, each one
    // bit is 110; at 2.4 MHz the 50 µs reset takes 15 bytes.
    let codec =
        SpiCodec::for_protocol::<Rgb, Ws2812B>(SpiEncodingPlan::ws281x_3bit(), false).unwrap();
    let config = LedStripConfig::ws2812b(1);
    let mut out: Vec<u8> = Vec::new();
    codec.encode::<64>(&config, &[Rgb::new(255, 0, 0)], &mut out).unwrap();
    let mut expected = GREEN_OFF_RED_ON.to_vec();
    expected.extend_from_slice(&[0u8; 15]);
    assert_eq!(out, expected);
    assert_eq!(codec.encoded_len(&config), 24);
}

#[test]
fn inverted_frame_is_bitwise_complement() {
    let plan = SpiEncodingPlan::ws281x_3bit();
    let normal = SpiCodec::for_protocol::<Rgb, Ws2812B>(plan, false).unwrap();
    let inverted = SpiCodec::for_protocol::<Rgb, Ws2812B>(plan, true).unwrap();
    let config = LedStripConfig::ws2812b(2);
    let pixels = [Rgb::new(1, 2, 3), Rgb::new(200, 100, 50)];
    let mut a: Vec<u8> = Vec::new();
    let mut b: Vec<u8> = Vec::new();
    normal.encode::<128>(&config, &pixels, &mut a).unwrap();
    inverted.encode::<128>(&config, &pixels, &mut b).unwrap();
    assert_eq!(a.len(), b.len());
    for (x, y) in a.iter().zip(b.iter()) {
        assert_eq!(*y, !*x);
    }
}

#[test]
fn encode_clears_previous_contents() {
    let codec =
        SpiCodec::for_protocol::<Rgb, Ws2812B>(SpiEncodingPlan::ws281x_3bit(), false).unwrap();
    let config = LedStripConfig::ws2812b(1);
    let mut out: Vec<u8> = vec![7, 7, 7];
    codec.encode::<64>(&config, &[Rgb::new(255, 0, 0)], &mut out).unwrap();
    assert_eq!(&out[..9], &GREEN_OFF_RED_ON);
    assert_eq!(out.len(), 24);
}

#[test]
fn failed_encode_leaves_buffer_unchanged() {
    let codec =
        SpiCodec::for_protocol::<Rgb, Ws2812B>(SpiEncodingPlan::ws281x_3bit(), false).unwrap();
    let config = LedStripConfig::ws2812b(1);
    let mut out: Vec<u8> = vec![1, 2, 3];
    let err = codec.encode::<23>(&config, &[Rgb::new(255, 0, 0)], &mut out).unwrap_err();
    assert_eq!(err, LedStripError::BufferTooSmall { required: 24, capacity: 23 });
    assert_eq!(out, vec![1, 2, 3]);
    let err = codec.encode::<64>(&config, &[], &mut out).unwrap_err();
    assert_eq!(err, LedStripError::InvalidLength { expected: 1, actual: 0 });
    assert_eq!(out, vec![1, 2, 3]);
}

#[test]
fn encode_fits_exact_capacity() {
    let codec =
        SpiCodec::for_protocol::<Rgb, Ws2812B>(SpiEncodingPlan::ws281x_3bit(), false).unwrap();
    let config = LedStripConfig::ws2812b(1);
    let mut out: Vec<u8> = Vec::new();
    codec.encode::<24>(&config, &[Rgb::new(255, 0, 0)], &mut out).unwrap();
    assert_eq!(out.len(), 24);
}

#[test]
fn ws2811_sends_eight_bit_symbols_msb_first() {
    // RGB order, most significant bit first: 0x01 ends with a one symbol.
    let plan = SpiEncodingPlan::new(4_800_000, 0b11100000, 0b11111110, 8);
    let codec = SpiCodec::new(plan, false).unwrap();
    let config = LedStripConfig::ws2811(1);
    assert_eq!(config.color_order(), RgbOrder::Rgb);
    let mut out: Vec<u8> = Vec::new();
    codec.encode::<128>(&config, &[Rgb::new(1, 0, 0)], &mut out).unwrap();
    assert!(out[..7].iter().all(|b| *b == 0b11100000));
    assert_eq!(out[7], 0b11111110);
    assert!(out[8..24].iter().all(|b| *b == 0b11100000));
    // 50 µs at 4.8 MHz is 30 reset bytes after 24 symbol bytes.
    assert_eq!(out.len(), 24 + 30);
}

#[test]
fn sk6812_white_channel_encoded_last() {
    let codec =
        SpiCodec::for_protocol::<Rgbw, Sk6812>(SpiEncodingPlan::sk6812_4bit(), false).unwrap();
    let config = LedStripConfig::sk6812(1);
    let mut out: Vec<u8> = Vec::new();
    codec.encode::<128>(&config, &[Rgbw::new(0, 0, 0, 0xFF)], &mut out).unwrap();
    // 4-bit symbols: 1000 for zero, 1100 for one; two symbols per byte.
    assert!(out[..12].iter().all(|b| *b == 0x88));
    assert!(out[12..16].iter().all(|b| *b == 0xCC));
    // 80 µs at 3.2 MHz is 32 reset bytes.
    assert_eq!(out.len(), 16 + 32);
}

#[test]
fn reset_bytes_round_up() {
    // 50 µs + 1 ns at 2.4 MHz: 120.0024 cycles, 16 bytes after rounding up.
    let plan = SpiEncodingPlan::ws281x_3bit().with_extra_reset_ns(1);
    let codec = SpiCodec::for_protocol::<Rgb, Ws2812B>(plan, false).unwrap();
    let config = LedStripConfig::ws2812b(0);
    assert_eq!(codec.encoded_len(&config), 16);
}

#[test]
fn empty_frame_is_only_reset() {
    let codec =
        SpiCodec::for_protocol::<Rgb, Ws2812B>(SpiEncodingPlan::ws281x_3bit(), true).unwrap();
    let config = LedStripConfig::ws2812b(0);
    let mut out: Vec<u8> = Vec::new();
    codec.encode::<64>(&config, &[], &mut out).unwrap();
    assert_eq!(out, vec![0xFF; 15]);
}

#[test]
fn plan_error_messages_are_exact() {
    assert_eq!(
        SpiCodecPlanError::ZeroClock.to_string(),
        "invalid SPI plan: spi_hz must be non-zero"
    );
    assert_eq!(
        SpiCodecPlanError::ZeroBitsPerSymbol.to_string(),
        "invalid SPI plan: bits_per_symbol must be non-zero"
    );
    assert_eq!(
        SpiCodecPlanError::BitsPerSymbolTooWide { bits_per_symbol: 12 }.to_string(),
        "invalid SPI plan: bits_per_symbol=12 exceeds 8"
    );
    assert_eq!(
        SpiCodecPlanError::PatternOutOfRange { pattern: 0x0F, bits_per_symbol: 3 }.to_string(),
        "invalid SPI plan: pattern=0x0F out of range for bits_per_symbol=3"
    );
    assert_eq!(
        SpiCodecPlanError::TimingOutOfTolerance {
            edge: TimingEdge::ZeroLow,
            actual_ns: 0,
            expected_ns: 850,
            tolerance_ns: 150,
        }
        .to_string(),
        "timing out of tolerance: edge=T0L actual=0ns expected=850ns tolerance=\u{00B1}150ns"
    );
}

#[test]
fn pattern_check_runs_before_timing_check() {
    // Zero pattern 0b1111 does not fit 3 bits; the timing is never looked at.
    let plan = SpiEncodingPlan::new(1_000_000, 0b1111, 0b110, 3);
    let err = SpiCodec::for_protocol::<Rgb, Ws2812B>(plan, false).unwrap_err();
    assert_eq!(err, SpiCodecPlanError::PatternOutOfRange { pattern: 0b1111, bits_per_symbol: 3 });
}

#[test]
fn each_timing_edge_can_fail() {
    // 2 MHz, 4-bit 1000 / 1110: T0H = 500 ns passes, T0L = 1500 ns fails.
    let plan = SpiEncodingPlan::new(2_000_000, 0b1000, 0b1110, 4);
    let err = SpiCodec::for_protocol::<Rgb, Ws2812B>(plan, false).unwrap_err();
    assert_eq!(
        err,
        SpiCodecPlanError::TimingOutOfTolerance {
            edge: TimingEdge::ZeroLow,
            actual_ns: 1500,
            expected_ns: 850,
            tolerance_ns: 150,
        }
    );
    // 2.4 MHz, 3-bit 100 / 111: the bit lasts 416 ns, T1H = 1248 ns fails.
    let plan = SpiEncodingPlan::new(2_400_000, 0b100, 0b111, 3);
    let err = SpiCodec::for_protocol::<Rgb, Ws2812B>(plan, false).unwrap_err();
    assert_eq!(
        err,
        SpiCodecPlanError::TimingOutOfTolerance {
            edge: TimingEdge::OneHigh,
            actual_ns: 1248,
            expected_ns: 800,
            tolerance_ns: 150,
        }
    );
    // 4 MHz, 4-bit 1000 / 1110: T0H, T0L and T1H pass, T1L = 250 ns fails.
    let plan = SpiEncodingPlan::new(4_000_000, 0b1000, 0b1110, 4);
    let err = SpiCodec::for_protocol::<Rgb, Ws2812B>(plan, false).unwrap_err();
    assert_eq!(
        err,
        SpiCodecPlanError::TimingOutOfTolerance {
            edge: TimingEdge::OneLow,
            actual_ns: 250,
            expected_ns: 450,
            tolerance_ns: 150,
        }
    );
}

#[test]
fn protocol_timing_pairs() {
    assert_eq!(
        <Ws2812B as SingleWireProtocol<Rgb>>::zero(),
        PulseTiming { high_ns: 400, low_ns: 850 }
    );
    assert_eq!(
        <Ws2812B as SingleWireProtocol<Rgb>>::one(),
        PulseTiming { high_ns: 800, low_ns: 450 }
    );
    assert_eq!(<Sk6812 as SingleWireProtocol<Rgbw>>::TIMING_TOLERANCE_NS, 150);
}

#[test]
fn inverted_eight_bit_patterns_use_full_byte() {
    let plan = SpiEncodingPlan::new(4_800_000, 0b11100000, 0b11111110, 8);
    let codec = SpiCodec::new(plan, true).unwrap();
    assert_eq!(codec.zero_pattern(), 0b00011111);
    assert_eq!(codec.one_pattern(), 0b00000001);
    assert_eq!(codec.reset_fill(), 0xFF);
}

#[test]
fn protocol_constants_match_protocol_functions() {
    assert_eq!(<Ws2812B as SingleWireProtocol<Rgb>>::RESET_NS, <Ws2812B as SingleWireProtocol<Rgb>>::reset_ns());
    assert_eq!(<Ws2811 as SingleWireProtocol<Rgb>>::RESET_NS, <Ws2811 as SingleWireProtocol<Rgb>>::reset_ns());
    assert_eq!(<Sk6812 as SingleWireProtocol<Rgbw>>::RESET_NS, <Sk6812 as SingleWireProtocol<Rgbw>>::reset_ns());
    assert_eq!(<Ws2816 as SingleWireProtocol<Rgb16>>::RESET_NS, <Ws2816 as SingleWireProtocol<Rgb16>>::reset_ns());
    assert_eq!(<Ws2812B as SingleWireProtocol<Rgb>>::reset_ns(), 50_000);
    assert_eq!(<Ws2811 as SingleWireProtocol<Rgb>>::reset_ns(), 50_000);
    assert_eq!(<Sk6812 as SingleWireProtocol<Rgbw>>::reset_ns(), 80_000);
    assert_eq!(<Ws2816 as SingleWireProtocol<Rgb16>>::reset_ns(), 300_000);

    assert_eq!(<Ws2812B as SingleWireProtocol<Rgb>>::DEFAULT_COLOR_ORDER, RgbOrder::Grb);
    assert_eq!(<Ws2812B as SingleWireProtocol<Rgb>>::default_color_order(), RgbOrder::Grb);
    assert_eq!(<Ws2811 as SingleWireProtocol<Rgb>>::DEFAULT_COLOR_ORDER, RgbOrder::Rgb);
    assert_eq!(<Ws2811 as SingleWireProtocol<Rgb>>::default_color_order(), RgbOrder::Rgb);
    assert_eq!(<Sk6812 as SingleWireProtocol<Rgbw>>::DEFAULT_COLOR_ORDER, RgbwOrder::Grbw);
    assert_eq!(<Sk6812 as SingleWireProtocol<Rgbw>>::default_color_order(), RgbwOrder::Grbw);
    assert_eq!(<Ws2816 as SingleWireProtocol<Rgb16>>::DEFAULT_COLOR_ORDER, Rgb16Order::Grb);
    assert_eq!(<Ws2816 as SingleWireProtocol<Rgb16>>::default_color_order(), Rgb16Order::Grb);

    assert_eq!(<Ws2812B as SingleWireProtocol<Rgb>>::BIT_ORDER, <Ws2812B as SingleWireProtocol<Rgb>>::bit_order());
    assert_eq!(<Ws2811 as SingleWireProtocol<Rgb>>::BIT_ORDER, <Ws2811 as SingleWireProtocol<Rgb>>::bit_order());
    assert_eq!(<Sk6812 as SingleWireProtocol<Rgbw>>::BIT_ORDER, <Sk6812 as SingleWireProtocol<Rgbw>>::bit_order());
    assert_eq!(<Ws2816 as SingleWireProtocol<Rgb16>>::BIT_ORDER, BitOrder::MsbFirst);
    assert_eq!(<Ws2816 as SingleWireProtocol<Rgb16>>::bit_order(), BitOrder::MsbFirst);

    assert_eq!(
        <Ws2812B as SingleWireProtocol<Rgb>>::TIMING_TOLERANCE_NS,
        <Ws2812B as SingleWireProtocol<Rgb>>::timing_tolerance_ns()
    );
    assert_eq!(
        <Ws2811 as SingleWireProtocol<Rgb>>::TIMING_TOLERANCE_NS,
        <Ws2811 as SingleWireProtocol<Rgb>>::timing_tolerance_ns()
    );
    assert_eq!(
        <Sk6812 as SingleWireProtocol<Rgbw>>::TIMING_TOLERANCE_NS,
        <Sk6812 as SingleWireProtocol<Rgbw>>::timing_tolerance_ns()
    );
    assert_eq!(
        <Ws2816 as SingleWireProtocol<Rgb16>>::TIMING_TOLERANCE_NS,
        <Ws2816 as SingleWireProtocol<Rgb16>>::timing_tolerance_ns()
    );
    assert_eq!(LedStripConfig::ws2812b(1).reset_ns(), 50_000);
}

#[test]
fn edge_beyond_u32_is_reported_saturated() {
    // 1 Hz, 8-bit symbols: T0H lasts 8 * 10^9 ns, which no u32 holds.
    let plan = SpiEncodingPlan::new(1, 0xFF, 0xFF, 8);
    let err = SpiCodec::for_protocol::<Rgb, Ws2812B>(plan, false).unwrap_err();
    assert_eq!(
        err,
        SpiCodecPlanError::TimingOutOfTolerance {
            edge: TimingEdge::ZeroHigh,
            actual_ns: u32::MAX,
            expected_ns: 400,
            tolerance_ns: 150,
        }
    );
}

#[test]
fn overflowing_reset_saturates_encoded_len() {
    let plan = SpiEncodingPlan::new(u32::MAX, 0b100, 0b110, 3).with_extra_reset_ns(u32::MAX);
    let codec = SpiCodec::new(plan, false).unwrap();
    let config = LedStripConfig::ws2812b(1);
    assert_eq!(codec.encoded_len(&config), usize::MAX);
    let mut out: Vec<u8> = Vec::new();
    let err = codec.encode::<64>(&config, &[Rgb::new(0, 0, 0)], &mut out).unwrap_err();
    assert_eq!(err, LedStripError::BufferTooSmall { required: usize::MAX, capacity: 64 });
}

#[test]
fn msb_first_red_byte_frame_is_exact() {
    let codec =
        SpiCodec::for_protocol::<Rgb, Ws2812B>(SpiEncodingPlan::ws281x_3bit(), false).unwrap();
    let config = LedStripConfig::ws2812b(1);
    let mut out: Vec<u8> = Vec::new();
    codec.encode::<64>(&config, &[Rgb::new(0x80, 0, 0)], &mut out).unwrap();
    let mut expected = vec![0x92, 0x49, 0x24, 0xD2, 0x49, 0x24, 0x92, 0x49, 0x24];
    expected.extend_from_slice(&[0u8; 15]);
    assert_eq!(out, expected);
}

use core::cell::Cell;

use led_strip::{
    LedStrip, LedStripError, RefreshError, Rgb, RgbOrder, SpiCodec, SpiEncodingPlan,
    TransportBackend, Ws2812B,
};

#[derive(Debug)]
struct CodecErr;
impl core::fmt::Display for CodecErr {
    fn fmt(&self, f: &mut core::fmt::Formatter<'_>) -> core::fmt::Result {
        f.write_str("encode failed")
    }
}
impl core::error::Error for CodecErr {}

#[derive(Debug)]
struct BackendErr;
impl core::fmt::Display for BackendErr {
    fn fmt(&self, f: &mut core::fmt::Formatter<'_>) -> core::fmt::Result {
        f.write_str("bus busy")
    }
}
impl core::error::Error for BackendErr {}

#[test]
fn display_codec_variant_wraps_inner() {
    let e: RefreshError<CodecErr, BackendErr> = RefreshError::Codec(CodecErr);
    let s = e.to_string();
    assert!(s.starts_with("codec error:"), "{s}");
    assert!(s.contains("encode failed"), "{s}");
}

#[test]
fn display_backend_variant_wraps_inner() {
    let e: RefreshError<CodecErr, BackendErr> = RefreshError::Backend(BackendErr);
    let s = e.to_string();
    assert!(s.starts_with("backend error:"), "{s}");
    assert!(s.contains("bus busy"), "{s}");
}

#[test]
fn source_returns_inner_for_both_variants() {
    let c: RefreshError<CodecErr, BackendErr> = RefreshError::Codec(CodecErr);
    assert_eq!(c.source_text(), "encode failed");

    let b: RefreshError<CodecErr, BackendErr> = RefreshError::Backend(BackendErr);
    assert_eq!(b.source_text(), "bus busy");
}

// ── LedStrip integration tests ──────────────────────────────────

/// Mock backend that records the byte count of the last transmit call.
#[derive(Debug)]
struct MockBackend(Cell<usize>);

impl MockBackend {
    fn new() -> Self {
        Self(Cell::new(0))
    }
    fn last_tx_len(&self) -> usize {
        self.0.get()
    }
}

impl TransportBackend for MockBackend {
    type Word = u8;
    type Error = core::convert::Infallible;

    fn transmit(&mut self, words: &[Self::Word]) -> Result<(), Self::Error> {
        self.0.set(words.len());
        Ok(())
    }
}

type TestStrip = LedStrip<Rgb, Ws2812B, SpiCodec, MockBackend, 256>;

fn make_codec() -> SpiCodec {
    SpiCodec::for_protocol::<Rgb, Ws2812B>(SpiEncodingPlan::ws281x_3bit(), false).unwrap()
}

fn make_strip() -> TestStrip {
    TestStrip::new(RgbOrder::Grb, make_codec(), MockBackend::new())
}

#[test]
fn new_constructs_without_error() {
    let strip = make_strip();
    // Verify default state
    let _ = format!("{strip:?}");
}

#[test]
fn write_transmits_encoded_data() {
    let mut strip = make_strip();
    strip
        .write(&[
            Rgb::new(255, 0, 0),
            Rgb::new(0, 255, 0),
            Rgb::new(0, 0, 255),
        ])
        .unwrap();
    let (_, backend) = strip.into_parts();
    assert!(
        backend.last_tx_len() > 0,
        "expected non-zero transmit length"
    );
}

#[test]
fn write_with_zero_pixels_sends_reset_only() {
    let mut strip = make_strip();
    strip.write(&[]).unwrap();
    // Zero pixels still produce reset/latch bytes
    let (_, backend) = strip.into_parts();
    assert!(backend.last_tx_len() > 0);
}

#[test]
fn write_rejects_buffer_too_small() {
    type TinyStrip = LedStrip<Rgb, Ws2812B, SpiCodec, MockBackend, 5>;
    let mut strip = TinyStrip::new(RgbOrder::Grb, make_codec(), MockBackend::new());
    // 2 pixels × 9 payload bytes + reset ≫ 5
    let err = strip
        .write(&[Rgb::new(0, 0, 0), Rgb::new(0, 0, 0)])
        .unwrap_err();
    assert!(matches!(err, LedStripError::BufferTooSmall { .. }));
}

#[test]
fn into_parts_returns_owned_codec_and_backend() {
    let strip = make_strip();
    let (codec, _backend) = strip.into_parts();
    // Verify the codec still works
    assert_eq!(codec.plan().spi_hz(), 2_400_000);
}

#[test]
fn debug_output_contains_fields() {
    let strip = make_strip();
    let s = format!("{strip:?}");
    assert!(s.contains("LedStrip"), "{s}");
    assert!(s.contains("color_order"), "{s}");
    assert!(s.contains("codec"), "{s}");
    assert!(s.contains("backend"), "{s}");
    assert!(s.contains("tx_buf"), "{s}");
}

// ── Further cases ───────────────────────────────────────────────

#[derive(Debug)]
struct FailingBackend;

impl TransportBackend for FailingBackend {
    type Word = u8;
    type Error = BackendErr;

    fn transmit(&mut self, _words: &[Self::Word]) -> Result<(), Self::Error> {
        Err(BackendErr)
    }
}

#[test]
fn write_sends_exactly_the_encoded_frame_length() {
    let mut strip = make_strip();
    strip.write(&[Rgb::new(1, 2, 3)]).unwrap();
    let (_, backend) = strip.into_parts();
    // 9 payload bytes + ceil(50_000 ns * 2.4 MHz / 8e9) = 15 reset bytes
    assert_eq!(backend.last_tx_len(), 24);
}

#[test]
fn write_reports_backend_error() {
    let mut strip: LedStrip<Rgb, Ws2812B, SpiCodec, FailingBackend, 64> =
        LedStrip::new(RgbOrder::Grb, make_codec(), FailingBackend);
    let err = strip.write(&[Rgb::new(1, 2, 3)]).unwrap_err();
    assert!(matches!(err, LedStripError::Operation(RefreshError::Backend(BackendErr))));
}

#[test]
fn write_buffer_too_small_reports_sizes() {
    type TinyStrip = LedStrip<Rgb, Ws2812B, SpiCodec, MockBackend, 23>;
    let mut strip = TinyStrip::new(RgbOrder::Grb, make_codec(), MockBackend::new());
    let err = strip.write(&[Rgb::new(0, 0, 0)]).unwrap_err();
    assert!(matches!(
        err,
        LedStripError::BufferTooSmall {
            required: 24,
            capacity: 23
        }
    ));
}

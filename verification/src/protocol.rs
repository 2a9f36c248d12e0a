//! Single-wire LED protocols: pulse timings, bit order and reset duration.
use vstd::prelude::*;

use crate::pixel::{LedPixel, Rgb, Rgb16, Rgb16Order, RgbOrder, Rgbw, RgbwOrder};

mod private;

pub use private::ProtocolSealed;

verus! {

/// Bit transmission order within a byte.
#[derive(Debug, Clone, Copy, PartialEq, Eq, Structural)]
pub enum BitOrder {
    /// Most significant bit first (WS2812-family default).
    MsbFirst,
    /// Least significant bit first.
    LsbFirst,
}

/// High/low pulse widths for a single protocol bit.
#[derive(Debug, Clone, Copy, PartialEq, Eq, Structural)]
pub struct PulseTiming {
    /// High-level duration in nanoseconds.
    pub high_ns: u32,
    /// Low-level duration in nanoseconds.
    pub low_ns: u32,
}

/// Describes the wire-level electrical characteristics of a single-wire LED
/// protocol (pulse timings, bit order, reset duration).
///
/// Each protocol is a zero-sized marker type (`Ws2812B`, `Sk6812`, ...) that
/// implements this trait for the pixel formats it can drive, so an
/// incompatible `<pixel, protocol>` pair does not compile.
///
/// The protocol's values are stated by the `spec_*` functions and handed out
/// by the functions of the same name without the prefix, which are proved to
/// return them; the associated constants carry the same values for use in
/// constant contexts. `timing_tolerance_ns()` is the symmetric tolerance used
/// when an SPI encoding plan is checked against the protocol: each edge must
/// satisfy `|actual - expected| <= tolerance`. It is 150 ns for every protocol
/// of this crate.
pub trait SingleWireProtocol<P>: ProtocolSealed where P: LedPixel {
    /// Human-readable protocol name (e.g. "WS2812B").
    const NAME: &'static str;

    /// Bit transmission order within each byte.
    const BIT_ORDER: BitOrder;

    /// Default on-wire color channel order for this protocol.
    const DEFAULT_COLOR_ORDER: P::Order;

    /// Minimum reset (latch) duration in nanoseconds.
    const RESET_NS: u32;

    /// Symmetric timing tolerance for SPI encoding plan validation.
    const TIMING_TOLERANCE_NS: u32 = 150;

    /// Bit transmission order within each byte.
    spec fn spec_bit_order() -> BitOrder;

    /// Default on-wire color channel order.
    spec fn spec_default_color_order() -> P::Order;

    /// Minimum reset (latch) duration in nanoseconds.
    spec fn spec_reset_ns() -> u32;

    /// Nominal pulse timing of a logical 0 bit.
    spec fn spec_zero() -> PulseTiming;

    /// Nominal pulse timing of a logical 1 bit.
    spec fn spec_one() -> PulseTiming;

    /// Symmetric timing tolerance, in nanoseconds.
    spec fn spec_timing_tolerance_ns() -> u32;

    /// Bit transmission order within each byte (`BIT_ORDER`).
    fn bit_order() -> (order: BitOrder)
        ensures
            order == Self::spec_bit_order(),
    ;

    /// Default on-wire color channel order (`DEFAULT_COLOR_ORDER`).
    fn default_color_order() -> (order: P::Order)
        ensures
            order == Self::spec_default_color_order(),
    ;

    /// Minimum reset (latch) duration in nanoseconds (`RESET_NS`).
    fn reset_ns() -> (ns: u32)
        ensures
            ns == Self::spec_reset_ns(),
    ;

    /// Nominal pulse timing for a logical 0 bit.
    fn zero() -> (t: PulseTiming)
        ensures
            t == Self::spec_zero(),
    ;

    /// Nominal pulse timing for a logical 1 bit.
    fn one() -> (t: PulseTiming)
        ensures
            t == Self::spec_one(),
    ;

    /// Symmetric timing tolerance in nanoseconds (`TIMING_TOLERANCE_NS`).
    fn timing_tolerance_ns() -> (ns: u32)
        ensures
            ns == Self::spec_timing_tolerance_ns(),
    ;
}

/// Protocol marker for WS2812B (3-channel 8-bit RGB, GRB order, 800 kbps).
#[derive(Debug, Clone, Copy, Default)]
pub struct Ws2812B;

/// Protocol marker for WS2811 (3-channel 8-bit RGB, RGB order, 400 kbps slow mode).
#[derive(Debug, Clone, Copy, Default)]
pub struct Ws2811;

/// Protocol marker for SK6812 (4-channel 8-bit RGBW, GRBW order).
#[derive(Debug, Clone, Copy, Default)]
pub struct Sk6812;

/// Protocol marker for WS2816 (3-channel 16-bit RGB, GRB order).
#[derive(Debug, Clone, Copy, Default)]
pub struct Ws2816;

impl SingleWireProtocol<Rgb> for Ws2812B {
    const NAME: &'static str = "WS2812B";

    const BIT_ORDER: BitOrder = BitOrder::MsbFirst;

    const DEFAULT_COLOR_ORDER: RgbOrder = RgbOrder::Grb;

    const RESET_NS: u32 = 50_000;

    open spec fn spec_bit_order() -> BitOrder {
        BitOrder::MsbFirst
    }

    open spec fn spec_default_color_order() -> RgbOrder {
        RgbOrder::Grb
    }

    open spec fn spec_reset_ns() -> u32 {
        50_000
    }

    open spec fn spec_zero() -> PulseTiming {
        PulseTiming { high_ns: 400, low_ns: 850 }
    }

    open spec fn spec_one() -> PulseTiming {
        PulseTiming { high_ns: 800, low_ns: 450 }
    }

    open spec fn spec_timing_tolerance_ns() -> u32 {
        150
    }

    fn bit_order() -> (order: BitOrder) {
        BitOrder::MsbFirst
    }

    fn default_color_order() -> (order: RgbOrder) {
        RgbOrder::Grb
    }

    fn reset_ns() -> (ns: u32) {
        50_000
    }

    fn zero() -> (t: PulseTiming) {
        PulseTiming { high_ns: 400, low_ns: 850 }
    }

    fn one() -> (t: PulseTiming) {
        PulseTiming { high_ns: 800, low_ns: 450 }
    }

    fn timing_tolerance_ns() -> (ns: u32) {
        150
    }
}

impl SingleWireProtocol<Rgb> for Ws2811 {
    const NAME: &'static str = "WS2811";

    const BIT_ORDER: BitOrder = BitOrder::MsbFirst;

    const DEFAULT_COLOR_ORDER: RgbOrder = RgbOrder::Rgb;

    const RESET_NS: u32 = 50_000;

    open spec fn spec_bit_order() -> BitOrder {
        BitOrder::MsbFirst
    }

    open spec fn spec_default_color_order() -> RgbOrder {
        RgbOrder::Rgb
    }

    open spec fn spec_reset_ns() -> u32 {
        50_000
    }

    // WS2811 uses 400 kbps slow-mode timing (about 2.5 us per bit).
    // Datasheet: T0H > 200 ns, T0L > 1300 ns; T1H > 800 ns, T1L > 500 ns.
    open spec fn spec_zero() -> PulseTiming {
        PulseTiming { high_ns: 500, low_ns: 2_000 }
    }

    open spec fn spec_one() -> PulseTiming {
        PulseTiming { high_ns: 1_200, low_ns: 1_300 }
    }

    open spec fn spec_timing_tolerance_ns() -> u32 {
        150
    }

    fn bit_order() -> (order: BitOrder) {
        BitOrder::MsbFirst
    }

    fn default_color_order() -> (order: RgbOrder) {
        RgbOrder::Rgb
    }

    fn reset_ns() -> (ns: u32) {
        50_000
    }

    fn zero() -> (t: PulseTiming) {
        PulseTiming { high_ns: 500, low_ns: 2_000 }
    }

    fn one() -> (t: PulseTiming) {
        PulseTiming { high_ns: 1_200, low_ns: 1_300 }
    }

    fn timing_tolerance_ns() -> (ns: u32) {
        150
    }
}

impl SingleWireProtocol<Rgbw> for Sk6812 {
    const NAME: &'static str = "SK6812";

    const BIT_ORDER: BitOrder = BitOrder::MsbFirst;

    const DEFAULT_COLOR_ORDER: RgbwOrder = RgbwOrder::Grbw;

    const RESET_NS: u32 = 80_000;

    open spec fn spec_bit_order() -> BitOrder {
        BitOrder::MsbFirst
    }

    open spec fn spec_default_color_order() -> RgbwOrder {
        RgbwOrder::Grbw
    }

    open spec fn spec_reset_ns() -> u32 {
        80_000
    }

    open spec fn spec_zero() -> PulseTiming {
        PulseTiming { high_ns: 300, low_ns: 900 }
    }

    open spec fn spec_one() -> PulseTiming {
        PulseTiming { high_ns: 600, low_ns: 600 }
    }

    open spec fn spec_timing_tolerance_ns() -> u32 {
        150
    }

    fn bit_order() -> (order: BitOrder) {
        BitOrder::MsbFirst
    }

    fn default_color_order() -> (order: RgbwOrder) {
        RgbwOrder::Grbw
    }

    fn reset_ns() -> (ns: u32) {
        80_000
    }

    fn zero() -> (t: PulseTiming) {
        PulseTiming { high_ns: 300, low_ns: 900 }
    }

    fn one() -> (t: PulseTiming) {
        PulseTiming { high_ns: 600, low_ns: 600 }
    }

    fn timing_tolerance_ns() -> (ns: u32) {
        150
    }
}

impl SingleWireProtocol<Rgb16> for Ws2816 {
    const NAME: &'static str = "WS2816";

    const BIT_ORDER: BitOrder = BitOrder::MsbFirst;

    const DEFAULT_COLOR_ORDER: Rgb16Order = Rgb16Order::Grb;

    // 16-bit channels and the color order shift need a longer reset latch.
    const RESET_NS: u32 = 300_000;

    open spec fn spec_bit_order() -> BitOrder {
        BitOrder::MsbFirst
    }

    open spec fn spec_default_color_order() -> Rgb16Order {
        Rgb16Order::Grb
    }

    open spec fn spec_reset_ns() -> u32 {
        300_000
    }

    open spec fn spec_zero() -> PulseTiming {
        PulseTiming { high_ns: 200, low_ns: 600 }
    }

    open spec fn spec_one() -> PulseTiming {
        PulseTiming { high_ns: 400, low_ns: 400 }
    }

    open spec fn spec_timing_tolerance_ns() -> u32 {
        150
    }

    fn bit_order() -> (order: BitOrder) {
        BitOrder::MsbFirst
    }

    fn default_color_order() -> (order: Rgb16Order) {
        Rgb16Order::Grb
    }

    fn reset_ns() -> (ns: u32) {
        300_000
    }

    fn zero() -> (t: PulseTiming) {
        PulseTiming { high_ns: 200, low_ns: 600 }
    }

    fn one() -> (t: PulseTiming) {
        PulseTiming { high_ns: 400, low_ns: 400 }
    }

    fn timing_tolerance_ns() -> (ns: u32) {
        150
    }
}

} // verus!

//! Pixel formats and their wire layout.
//!
//! Each pixel type fixes its channel layout, its byte count on the wire and the
//! color-order enum that may be applied to it. The wire layout of a pixel is
//! stated by `LedPixel::wire_bytes`; `LedPixel::encode` is proved to write
//! exactly those bytes.
use vstd::prelude::*;

mod private;

pub use private::Sealed;

verus! {

/// Discriminant for the three supported pixel formats.
#[derive(Debug, Clone, Copy, PartialEq, Eq, Structural)]
#[non_exhaustive]
pub enum PixelKind {
    /// 3-channel 8-bit RGB.
    Rgb,
    /// 4-channel 8-bit RGBW (dedicated white channel).
    Rgbw,
    /// 3-channel 16-bit RGB (high dynamic range).
    Rgb16,
}

/// Wire-level byte order for 8-bit RGB pixels.
#[derive(Debug, Clone, Copy, PartialEq, Eq, Structural)]
#[non_exhaustive]
pub enum RgbOrder {
    /// Red, Green, Blue.
    Rgb,
    /// Green, Red, Blue (WS2812B default).
    Grb,
}

/// Wire-level byte order for 8-bit RGBW pixels.
#[derive(Debug, Clone, Copy, PartialEq, Eq, Structural)]
#[non_exhaustive]
pub enum RgbwOrder {
    /// Red, Green, Blue, White.
    Rgbw,
    /// Green, Red, Blue, White (SK6812 default).
    Grbw,
}

/// Wire-level byte order for 16-bit RGB pixels.
#[derive(Debug, Clone, Copy, PartialEq, Eq, Structural)]
#[non_exhaustive]
pub enum Rgb16Order {
    /// Red, Green, Blue (big-endian per channel).
    Rgb,
    /// Green, Red, Blue (big-endian per channel, WS2816 default).
    Grb,
}

/// Logical pixel representation for a single LED.
///
/// Each pixel type owns its color-channel layout, byte count, and exclusive
/// color-order enum (`type Order`), so e.g. `Grbw` cannot be applied to an
/// `Rgb` pixel.
///
/// Sealed: only the formats of this crate implement it.
pub trait LedPixel: Copy + Default + Sealed {
    type Order: Copy + Eq;

    /// Discriminant for runtime pixel-format dispatch.
    const KIND: PixelKind;

    /// Number of bytes this pixel occupies on the wire.
    const BYTES_PER_PIXEL: usize;

    /// The bytes this pixel puts on the wire under `order`, first byte first.
    spec fn wire_bytes(self, order: Self::Order) -> Seq<u8>;

    /// The all-channels-off pixel (the value of `Default::default()`).
    spec fn spec_off() -> Self;

    /// The wire layout has exactly `BYTES_PER_PIXEL` bytes, and that count is
    /// between 1 and 6.
    proof fn lemma_wire_len(self, order: Self::Order)
        ensures
            self.wire_bytes(order).len() == Self::BYTES_PER_PIXEL,
            1 <= Self::BYTES_PER_PIXEL <= 6,
    ;

    /// Returns the all-channels-off pixel.
    fn off() -> (p: Self)
        ensures
            p == Self::spec_off(),
    ;

    /// Encodes this pixel into wire-format bytes using the given color order.
    /// The first `BYTES_PER_PIXEL` bytes of `out` receive the wire layout; the
    /// rest of `out` is left as it was.
    fn encode(self, order: Self::Order, out: &mut [u8])
        requires
            old(out)@.len() >= Self::BYTES_PER_PIXEL,
        ensures
            final(out)@ == self.wire_bytes(order) + old(out)@.skip(Self::BYTES_PER_PIXEL as int),
    ;
}

/// 8-bit RGB pixel (3 bytes on the wire).
///
/// Used with WS2812B and WS2811 protocols.
#[derive(Debug, Clone, Copy, PartialEq, Eq, Structural)]
pub struct Rgb {
    pub r: u8,
    pub g: u8,
    pub b: u8,
}

impl Rgb {
    /// Creates a new RGB pixel.
    pub fn new(r: u8, g: u8, b: u8) -> (p: Self)
        ensures
            p == (Rgb { r, g, b }),
    {
        Self { r, g, b }
    }

    /// All channels off.
    pub fn black() -> (p: Self)
        ensures
            p == (Rgb { r: 0, g: 0, b: 0 }),
    {
        Self::new(0, 0, 0)
    }

    /// All channels at maximum.
    pub fn white() -> (p: Self)
        ensures
            p == (Rgb { r: u8::MAX, g: u8::MAX, b: u8::MAX }),
    {
        Self::new(u8::MAX, u8::MAX, u8::MAX)
    }
}

impl Default for Rgb {
    fn default() -> (p: Self)
        ensures
            p == (Rgb { r: 0, g: 0, b: 0 }),
    {
        Self::black()
    }
}

/// 8-bit RGBW pixel with dedicated white channel (4 bytes on the wire).
///
/// Used with the SK6812 RGBW protocol. The white channel is independent:
/// (0, 0, 0, 255) produces pure white without engaging the RGB LEDs.
#[derive(Debug, Clone, Copy, PartialEq, Eq, Structural)]
pub struct Rgbw {
    pub r: u8,
    pub g: u8,
    pub b: u8,
    pub w: u8,
}

impl Rgbw {
    /// Creates a new RGBW pixel.
    pub fn new(r: u8, g: u8, b: u8, w: u8) -> (p: Self)
        ensures
            p == (Rgbw { r, g, b, w }),
    {
        Self { r, g, b, w }
    }

    /// All channels off.
    pub fn black() -> (p: Self)
        ensures
            p == (Rgbw { r: 0, g: 0, b: 0, w: 0 }),
    {
        Self::new(0, 0, 0, 0)
    }

    /// All channels at maximum.
    pub fn white() -> (p: Self)
        ensures
            p == (Rgbw { r: u8::MAX, g: u8::MAX, b: u8::MAX, w: u8::MAX }),
    {
        Self::new(u8::MAX, u8::MAX, u8::MAX, u8::MAX)
    }
}

impl Default for Rgbw {
    fn default() -> (p: Self)
        ensures
            p == (Rgbw { r: 0, g: 0, b: 0, w: 0 }),
    {
        Self::black()
    }
}

/// 16-bit RGB pixel (6 bytes on the wire, big-endian per channel).
///
/// Used with the WS2816 protocol (65536 levels per channel).
#[derive(Debug, Clone, Copy, PartialEq, Eq, Structural)]
pub struct Rgb16 {
    pub r: u16,
    pub g: u16,
    pub b: u16,
}

impl Rgb16 {
    /// Creates a new 16-bit RGB pixel.
    pub fn new(r: u16, g: u16, b: u16) -> (p: Self)
        ensures
            p == (Rgb16 { r, g, b }),
    {
        Self { r, g, b }
    }

    /// All channels off.
    pub fn black() -> (p: Self)
        ensures
            p == (Rgb16 { r: 0, g: 0, b: 0 }),
    {
        Self::new(0, 0, 0)
    }

    /// All channels at maximum.
    pub fn white() -> (p: Self)
        ensures
            p == (Rgb16 { r: u16::MAX, g: u16::MAX, b: u16::MAX }),
    {
        Self::new(u16::MAX, u16::MAX, u16::MAX)
    }
}

impl Default for Rgb16 {
    fn default() -> (p: Self)
        ensures
            p == (Rgb16 { r: 0, g: 0, b: 0 }),
    {
        Self::black()
    }
}

/// The two bytes of a 16-bit channel, most significant first.
pub open spec fn be_bytes(x: u16) -> Seq<u8> {
    seq![(x / 256) as u8, (x % 256) as u8]
}

impl LedPixel for Rgb {
    type Order = RgbOrder;

    const KIND: PixelKind = PixelKind::Rgb;

    const BYTES_PER_PIXEL: usize = 3;

    open spec fn wire_bytes(self, order: RgbOrder) -> Seq<u8> {
        match order {
            RgbOrder::Rgb => seq![self.r, self.g, self.b],
            RgbOrder::Grb => seq![self.g, self.r, self.b],
        }
    }

    open spec fn spec_off() -> Self {
        Rgb { r: 0, g: 0, b: 0 }
    }

    proof fn lemma_wire_len(self, order: RgbOrder) {
    }

    fn off() -> (p: Self) {
        Self::black()
    }

    fn encode(self, order: RgbOrder, out: &mut [u8]) {
        match order {
            RgbOrder::Rgb => {
                out[0] = self.r;
                out[1] = self.g;
                out[2] = self.b;
            },
            RgbOrder::Grb => {
                out[0] = self.g;
                out[1] = self.r;
                out[2] = self.b;
            },
        }
        assert(out@ =~= self.wire_bytes(order) + old(out)@.skip(3));
    }
}

impl LedPixel for Rgbw {
    type Order = RgbwOrder;

    const KIND: PixelKind = PixelKind::Rgbw;

    const BYTES_PER_PIXEL: usize = 4;

    open spec fn wire_bytes(self, order: RgbwOrder) -> Seq<u8> {
        match order {
            RgbwOrder::Rgbw => seq![self.r, self.g, self.b, self.w],
            RgbwOrder::Grbw => seq![self.g, self.r, self.b, self.w],
        }
    }

    open spec fn spec_off() -> Self {
        Rgbw { r: 0, g: 0, b: 0, w: 0 }
    }

    proof fn lemma_wire_len(self, order: RgbwOrder) {
    }

    fn off() -> (p: Self) {
        Self::black()
    }

    fn encode(self, order: RgbwOrder, out: &mut [u8]) {
        match order {
            RgbwOrder::Rgbw => {
                out[0] = self.r;
                out[1] = self.g;
                out[2] = self.b;
                out[3] = self.w;
            },
            RgbwOrder::Grbw => {
                out[0] = self.g;
                out[1] = self.r;
                out[2] = self.b;
                out[3] = self.w;
            },
        }
        assert(out@ =~= self.wire_bytes(order) + old(out)@.skip(4));
    }
}

/// Splits a 16-bit channel into its big-endian byte pair.
fn split_be(x: u16) -> (pair: (u8, u8))
    ensures
        seq![pair.0, pair.1] == be_bytes(x),
{
    let hi = (x >> 8u16) as u8;
    let lo = (x & 0xffu16) as u8;
    assert(hi == (x / 256) as u8 && lo == (x % 256) as u8) by (bit_vector)
        requires
            hi == (x >> 8u16) as u8,
            lo == (x & 0xffu16) as u8,
    ;
    (hi, lo)
}

impl LedPixel for Rgb16 {
    type Order = Rgb16Order;

    const KIND: PixelKind = PixelKind::Rgb16;

    const BYTES_PER_PIXEL: usize = 6;

    open spec fn wire_bytes(self, order: Rgb16Order) -> Seq<u8> {
        match order {
            Rgb16Order::Rgb => be_bytes(self.r) + be_bytes(self.g) + be_bytes(self.b),
            Rgb16Order::Grb => be_bytes(self.g) + be_bytes(self.r) + be_bytes(self.b),
        }
    }

    open spec fn spec_off() -> Self {
        Rgb16 { r: 0, g: 0, b: 0 }
    }

    proof fn lemma_wire_len(self, order: Rgb16Order) {
    }

    fn off() -> (p: Self) {
        Self::black()
    }

    fn encode(self, order: Rgb16Order, out: &mut [u8]) {
        // 16-bit values go on the wire as big-endian byte pairs per channel
        // (WS2816 wire format: R[15:8] R[7:0] G[15:8] ...).
        let (r0, r1) = split_be(self.r);
        let (g0, g1) = split_be(self.g);
        let (b0, b1) = split_be(self.b);
        match order {
            Rgb16Order::Rgb => {
                out[0] = r0;
                out[1] = r1;
                out[2] = g0;
                out[3] = g1;
                out[4] = b0;
                out[5] = b1;
            },
            Rgb16Order::Grb => {
                out[0] = g0;
                out[1] = g1;
                out[2] = r0;
                out[3] = r1;
                out[4] = b0;
                out[5] = b1;
            },
        }
        assert(out@ =~= self.wire_bytes(order) + old(out)@.skip(6));
    }
}

} // verus!

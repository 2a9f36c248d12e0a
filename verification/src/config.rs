//! Strip configuration: pixel count and color order for a `<pixel, protocol>` pair.
use vstd::prelude::*;

use core::marker::PhantomData;

use crate::pixel::{LedPixel, Rgb, Rgb16, Rgb16Order, RgbOrder, Rgbw, RgbwOrder};
use crate::protocol::{SingleWireProtocol, Sk6812, Ws2811, Ws2812B, Ws2816};

verus! {

/// LED strip configuration: the pixel count and the color channel order, for
/// a `<pixel, protocol>` type pair fixed at compile time (an invalid pair such
/// as `Rgb` with `Sk6812` does not compile).
///
/// The convenience constructors ([`ws2812b`](Self::ws2812b),
/// [`ws2811`](Self::ws2811), ...) take each protocol's default color order.
/// Use [`new`](Self::new) with an explicit `color_order` for non-standard
/// wiring.
#[derive(Debug, PartialEq, Eq)]
pub struct LedStripConfig<P, Proto> where P: LedPixel, Proto: SingleWireProtocol<P> {
    len: usize,
    color_order: P::Order,
    _pixel: PhantomData<P>,
    _protocol: PhantomData<Proto>,
}

impl<P, Proto> LedStripConfig<P, Proto> where P: LedPixel, Proto: SingleWireProtocol<P> {
    /// Number of pixels in the strip.
    pub closed spec fn spec_len(&self) -> usize {
        self.len
    }

    /// On-wire color channel order.
    pub closed spec fn spec_color_order(&self) -> P::Order {
        self.color_order
    }

    /// The configuration of `len` pixels in `color_order`.
    pub closed spec fn spec_new(len: usize, color_order: P::Order) -> Self {
        LedStripConfig { len, color_order, _pixel: PhantomData, _protocol: PhantomData }
    }

    /// The configuration `spec_new(len, color_order)` has `len` pixels in
    /// `color_order`.
    pub proof fn lemma_spec_new(len: usize, color_order: P::Order)
        ensures
            Self::spec_new(len, color_order).len() == len,
            Self::spec_new(len, color_order).color_order() == color_order,
    {
    }

    /// A configuration is determined by its pixel count and color order.
    pub proof fn lemma_config_ext(a: Self, b: Self)
        requires
            a.len() == b.len(),
            a.color_order() == b.color_order(),
        ensures
            a == b,
    {
    }

    /// Creates a configuration with an explicit color order.
    pub fn new(len: usize, color_order: P::Order) -> (config: Self)
        ensures
            config == Self::spec_new(len, color_order),
            config.len() == len,
            config.color_order() == color_order,
    {
        Self { len, color_order, _pixel: PhantomData, _protocol: PhantomData }
    }

    /// Number of pixels in the strip.
    #[verifier::when_used_as_spec(spec_len)]
    pub fn len(&self) -> (n: usize)
        ensures
            n == self.spec_len(),
    {
        self.len
    }

    /// Whether the strip has no pixels.
    pub fn is_empty(&self) -> (b: bool)
        ensures
            b == (self.len() == 0),
    {
        self.len == 0
    }

    /// On-wire color channel order.
    #[verifier::when_used_as_spec(spec_color_order)]
    pub fn color_order(&self) -> (order: P::Order)
        ensures
            order == self.spec_color_order(),
    {
        self.color_order
    }

    /// Bytes per pixel on the wire.
    pub fn bytes_per_pixel(&self) -> (n: usize)
        ensures
            n == P::BYTES_PER_PIXEL,
    {
        P::BYTES_PER_PIXEL
    }

    /// Number of wire bytes of a whole frame: pixel count times bytes per pixel.
    pub fn frame_len_bytes(&self) -> (n: usize)
        requires
            self.len() * P::BYTES_PER_PIXEL <= usize::MAX,
        ensures
            n == self.len() * P::BYTES_PER_PIXEL,
    {
        self.len * P::BYTES_PER_PIXEL
    }

    /// Minimum reset (latch) duration of the protocol, in nanoseconds.
    pub fn reset_ns(&self) -> (ns: u32)
        ensures
            ns == Proto::spec_reset_ns(),
    {
        Proto::reset_ns()
    }
}

impl<P, Proto> Clone for LedStripConfig<P, Proto> where P: LedPixel, Proto: SingleWireProtocol<P> {
    fn clone(&self) -> (c: Self)
        ensures
            c == *self,
    {
        Self {
            len: self.len,
            color_order: self.color_order,
            _pixel: PhantomData,
            _protocol: PhantomData,
        }
    }
}

impl<P, Proto> Copy for LedStripConfig<P, Proto> where P: LedPixel, Proto: SingleWireProtocol<P> {

}

impl LedStripConfig<Rgb, Ws2812B> {
    /// Configuration for a WS2812B strip (GRB color order).
    pub fn ws2812b(len: usize) -> (config: Self)
        ensures
            config.len() == len,
            config.color_order() == RgbOrder::Grb,
    {
        Self::new(len, <Ws2812B as SingleWireProtocol<Rgb>>::default_color_order())
    }
}

impl LedStripConfig<Rgb, Ws2811> {
    /// Configuration for a WS2811 strip (RGB color order).
    pub fn ws2811(len: usize) -> (config: Self)
        ensures
            config.len() == len,
            config.color_order() == RgbOrder::Rgb,
    {
        Self::new(len, <Ws2811 as SingleWireProtocol<Rgb>>::default_color_order())
    }
}

impl LedStripConfig<Rgbw, Sk6812> {
    /// Configuration for an SK6812 RGBW strip (GRBW color order).
    pub fn sk6812(len: usize) -> (config: Self)
        ensures
            config.len() == len,
            config.color_order() == RgbwOrder::Grbw,
    {
        Self::new(len, <Sk6812 as SingleWireProtocol<Rgbw>>::default_color_order())
    }
}

impl LedStripConfig<Rgb16, Ws2816> {
    /// Configuration for a WS2816 16-bit strip (GRB color order).
    pub fn ws2816(len: usize) -> (config: Self)
        ensures
            config.len() == len,
            config.color_order() == Rgb16Order::Grb,
    {
        Self::new(len, <Ws2816 as SingleWireProtocol<Rgb16>>::default_color_order())
    }
}

} // verus!

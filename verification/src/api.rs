//! The driver: a codec turns pixels into transport words, a backend sends them.
use vstd::prelude::*;

use core::marker::PhantomData;

use crate::config::LedStripConfig;
use crate::error::{LedStripError, LedStripResult};
use crate::pixel::LedPixel;
use crate::protocol::SingleWireProtocol;

verus! {

/// Unified error type returned by [`LedStrip::write`]: either a codec-level
/// error (encoding failure) or a backend-level error (transmission failure).
#[derive(Debug, Clone, Copy, PartialEq, Eq)]
#[non_exhaustive]
pub enum RefreshError<CodecError, BackendError> {
    /// The codec failed to encode the pixel data into transport words.
    Codec(CodecError),
    /// The transport backend failed to transmit the encoded words.
    Backend(BackendError),
}

impl<CodecError, BackendError> RefreshError<CodecError, BackendError> {
    /// Renders the error as "codec error: ..." or "backend error: ...", around
    /// the wrapped error's `Display` text.
    pub fn to_string(&self) -> (s: String) where
        CodecError: core::fmt::Display,
        BackendError: core::fmt::Display,
        ensures
            self matches RefreshError::Codec(inner) ==> exists|t: String|
                vstd::string::to_string_from_display_ensures::<CodecError>(&inner, t) && s@ == "codec error: "@ + t@,
            self matches RefreshError::Backend(inner) ==> exists|t: String|
                vstd::string::to_string_from_display_ensures::<BackendError>(&inner, t) && s@ == "backend error: "@ + t@,
    {
        let mut s = String::new();
        match self {
            RefreshError::Codec(inner) => {
                let t = inner.to_string();
                s.append("codec error: ");
                s.append(t.as_str());
            },
            RefreshError::Backend(inner) => {
                let t = inner.to_string();
                s.append("backend error: ");
                s.append(t.as_str());
            },
        }
        s
    }

    /// The `Display` text of the wrapped codec or backend error.
    pub fn source_text(&self) -> (s: String) where
        CodecError: core::fmt::Display,
        BackendError: core::fmt::Display,
        ensures
            self matches RefreshError::Codec(inner) ==> vstd::string::to_string_from_display_ensures::<
                CodecError,
            >(&inner, s),
            self matches RefreshError::Backend(inner) ==> vstd::string::to_string_from_display_ensures::<
                BackendError,
            >(&inner, s),
    {
        match self {
            RefreshError::Codec(inner) => inner.to_string(),
            RefreshError::Backend(inner) => inner.to_string(),
        }
    }
}

/// Low-level transport for encoded LED data.
///
/// A backend owns a hardware peripheral (an SPI bus, or a future peripheral
/// such as an RMT channel or PIO state machine) and pushes pre-encoded words
/// onto the wire. It knows nothing of LED protocol timings; that is the
/// codec's job. [`transmit`](Self::transmit) blocks until the whole buffer
/// has been sent. Reset/latch timing is part of the encoded words.
///
/// Whether a transmission succeeds depends on the hardware. What a backend
/// promises is its record of transmissions: each call of `transmit` adds the
/// words it was handed and the result it returned.
pub trait TransportBackend {
    /// The unit of transmission. SPI uses `u8`.
    type Word: Copy;

    /// Backend-specific error (e.g. the SPI bus error).
    type Error;

    /// Every transmission so far, oldest first: the words handed to
    /// `transmit` and what it returned. A backend verified with this crate
    /// defines this record and proves `transmit` against it. The default
    /// body, an empty record, only lets backends written in plain Rust
    /// compile: no backend that keeps it can meet the contract of
    /// `transmit`, so for such a backend that contract is an unchecked
    /// promise, and what a verified caller concludes from it about that
    /// backend's record does not hold.
    closed spec fn transmissions(&self) -> Seq<(Seq<Self::Word>, Result<(), Self::Error>)> {
        Seq::empty()
    }

    /// Sends `words` over the wire. Blocks until transmission completes.
    fn transmit(&mut self, words: &[Self::Word]) -> (r: Result<(), Self::Error>)
        ensures
            final(self).transmissions() == old(self).transmissions().push((words@, r)),
    ;
}

/// Encodes LED pixel data into transport words for a specific protocol.
///
/// The generic parameters lock a `<pixel, protocol, codec>` triple at compile
/// time. An implementation states what it produces through the spec
/// functions below, and proves that `encode` produces exactly
/// `encoded_len` words whenever it succeeds, and never more than the
/// capacity it was given.
pub trait WireCodec<P, Proto, Word> where P: LedPixel, Proto: SingleWireProtocol<P>, Word: Copy {
    /// Codec-level error type (construction, validation, etc.).
    type Error;

    /// Error type produced specifically by [`encode`](Self::encode).
    type EncodeError;

    /// Inputs on which `encoded_len` is defined.
    spec fn encoded_len_defined(&self, config: LedStripConfig<P, Proto>) -> bool;

    /// The number of words `encode` produces for `config`.
    spec fn spec_encoded_len(&self, config: LedStripConfig<P, Proto>) -> int;

    /// Inputs on which `encode` is defined, for a buffer of `capacity` words.
    spec fn encode_defined(
        &self,
        config: LedStripConfig<P, Proto>,
        pixels: Seq<P>,
        capacity: int,
    ) -> bool;

    /// What `encode` returns: the words it leaves in the buffer, or its error.
    spec fn spec_encode(
        &self,
        config: LedStripConfig<P, Proto>,
        pixels: Seq<P>,
        capacity: int,
    ) -> Result<Seq<Word>, LedStripError<Self::EncodeError>>;

    /// A successful encoding has exactly `spec_encoded_len` words, and at most
    /// `capacity`.
    proof fn lemma_encode_len(
        &self,
        config: LedStripConfig<P, Proto>,
        pixels: Seq<P>,
        capacity: int,
    )
        requires
            self.encode_defined(config, pixels, capacity),
        ensures
            self.spec_encode(config, pixels, capacity) matches Ok(words) ==> words.len()
                == self.spec_encoded_len(config) <= capacity,
    ;

    /// Returns the exact number of words that [`encode`](Self::encode)
    /// produces for `config`, reset/trailer included.
    fn encoded_len(&self, config: &LedStripConfig<P, Proto>) -> (n: usize)
        requires
            self.encoded_len_defined(*config),
        ensures
            n == self.spec_encoded_len(*config),
    ;

    /// Encodes `pixels` into transport words. The buffer is cleared first, so
    /// it may be reused across calls; it is meant to hold at most
    /// `TX_CAPACITY` words.
    fn encode<const TX_CAPACITY: usize>(
        &self,
        config: &LedStripConfig<P, Proto>,
        pixels: &[P],
        out: &mut Vec<Word>,
    ) -> (r: LedStripResult<(), Self::EncodeError>)
        requires
            self.encode_defined(*config, pixels@, TX_CAPACITY as int),
        ensures
            match self.spec_encode(*config, pixels@, TX_CAPACITY as int) {
                Ok(words) => r is Ok && final(out)@ == words,
                Err(e) => r == Err::<(), LedStripError<Self::EncodeError>>(e),
            },
    ;
}

/// The error `LedStrip::write` reports for an encoding error `e`: structural
/// variants pass through, a codec error is wrapped in `RefreshError::Codec`.
pub open spec fn codec_failure<CE, BE>(e: LedStripError<CE>) -> LedStripError<RefreshError<CE, BE>> {
    match e {
        LedStripError::InvalidIndex => LedStripError::InvalidIndex,
        LedStripError::InvalidLength { expected, actual } => LedStripError::InvalidLength {
            expected,
            actual,
        },
        LedStripError::BufferTooSmall { required, capacity } => LedStripError::BufferTooSmall {
            required,
            capacity,
        },
        LedStripError::Operation(x) => LedStripError::Operation(RefreshError::Codec(x)),
    }
}

/// What `LedStrip::write` returns once the backend's `transmit` returned
/// `res`: `Ok`, or the backend error wrapped in `RefreshError::Backend`.
pub open spec fn backend_outcome<CE, BE>(res: Result<(), BE>) -> LedStripResult<(), RefreshError<CE, BE>> {
    match res {
        Ok(()) => Ok(()),
        Err(e) => Err(LedStripError::Operation(RefreshError::Backend(e))),
    }
}

/// Wraps a codec error.
fn codec_refresh_error<CE, BE>(e: CE) -> (r: RefreshError<CE, BE>)
    ensures
        r == RefreshError::<CE, BE>::Codec(e),
{
    RefreshError::Codec(e)
}

/// Driver for a single-wire addressable LED strip.
///
/// Owns a codec, a transport backend, and a reusable transmission buffer. It
/// keeps no frame: each [`write`](Self::write) takes a pixel slice of any
/// length, encodes it and transmits it in one operation.
///
/// | Parameter | Role |
/// |-----------|------|
/// | `P` | Pixel type ([`crate::Rgb`], [`crate::Rgbw`], [`crate::Rgb16`]) |
/// | `Proto` | Protocol marker ([`crate::Ws2812B`], [`crate::Sk6812`], [`crate::Ws2811`], [`crate::Ws2816`]) |
/// | `Codec` | Encoding scheme (currently [`crate::SpiCodec`]) |
/// | `Backend` | Transport layer |
/// | `TX_CAPACITY` | Upper bound on the transport buffer size (in `Word`s) |
#[derive(Debug)]
pub struct LedStrip<P, Proto, Codec, Backend, const TX_CAPACITY: usize> where
    P: LedPixel,
    Proto: SingleWireProtocol<P>,
    Codec: WireCodec<P, Proto, Backend::Word>,
    Backend: TransportBackend,
 {
    color_order: P::Order,
    codec: Codec,
    backend: Backend,
    tx_buf: Vec<Backend::Word>,
    _proto: PhantomData<Proto>,
}

impl<P, Proto, Codec, Backend, const TX_CAPACITY: usize> LedStrip<
    P,
    Proto,
    Codec,
    Backend,
    TX_CAPACITY,
> where
    P: LedPixel,
    Proto: SingleWireProtocol<P>,
    Codec: WireCodec<P, Proto, Backend::Word>,
    Backend: TransportBackend,
 {
    pub closed spec fn spec_color_order(&self) -> P::Order {
        self.color_order
    }

    pub closed spec fn spec_codec(&self) -> Codec {
        self.codec
    }

    pub closed spec fn spec_backend(&self) -> Backend {
        self.backend
    }

    /// The words of the last successful encoding.
    pub closed spec fn spec_tx_words(&self) -> Seq<Backend::Word> {
        self.tx_buf@
    }

    /// The configuration `write` encodes `pixel_count` pixels under.
    pub open spec fn frame_config(&self, pixel_count: int) -> LedStripConfig<P, Proto> {
        LedStripConfig::spec_new(pixel_count as usize, self.spec_color_order())
    }

    /// Law: `write` encodes a slice of `pixel_count` pixels under the one
    /// configuration with that many pixels in the color order the strip was
    /// constructed with, whatever the protocol's default order.
    pub proof fn lemma_write_config(&self, config: LedStripConfig<P, Proto>)
        requires
            config.color_order() == self.spec_color_order(),
        ensures
            self.frame_config(config.len() as int) == config,
    {
        LedStripConfig::<P, Proto>::lemma_spec_new(config.len(), self.spec_color_order());
        LedStripConfig::<P, Proto>::lemma_config_ext(self.frame_config(config.len() as int), config);
    }

    /// Constructs the driver.
    ///
    /// `color_order` sets the on-wire byte order (e.g. `RgbOrder::Grb` for
    /// WS2812B); the protocol's `DEFAULT_COLOR_ORDER` is the typical wiring.
    /// No capacity is checked here: [`write`](Self::write) checks
    /// `TX_CAPACITY` on each call.
    pub fn new(color_order: P::Order, codec: Codec, backend: Backend) -> (strip: Self)
        ensures
            strip.spec_color_order() == color_order,
            strip.spec_codec() == codec,
            strip.spec_backend() == backend,
            strip.spec_tx_words() == Seq::<Backend::Word>::empty(),
    {
        Self { color_order, codec, backend, tx_buf: Vec::new(), _proto: PhantomData }
    }

    /// Encodes `pixels` and transmits them to the LED strip in one call.
    ///
    /// The encoding comes from the codec for `pixels.len()` pixels in the
    /// strip's color order. If it fails, its error is returned, a codec error
    /// wrapped in `RefreshError::Codec` (for `SpiCodec`, `BufferTooSmall` when
    /// the encoded frame exceeds `TX_CAPACITY`), and nothing is sent.
    /// Otherwise the encoded words are handed to the backend, and a backend
    /// error is returned wrapped in `RefreshError::Backend`.
    pub fn write(&mut self, pixels: &[P]) -> (r: LedStripResult<
        (),
        RefreshError<Codec::EncodeError, Backend::Error>,
    >)
        requires
            old(self).spec_codec().encode_defined(
                old(self).frame_config(pixels@.len() as int),
                pixels@,
                TX_CAPACITY as int,
            ),
        ensures
            final(self).spec_color_order() == old(self).spec_color_order(),
            final(self).spec_codec() == old(self).spec_codec(),
            match old(self).spec_codec().spec_encode(
                old(self).frame_config(pixels@.len() as int),
                pixels@,
                TX_CAPACITY as int,
            ) {
                Err(e) => r == Err::<(), LedStripError<RefreshError<Codec::EncodeError, Backend::Error>>>(
                    codec_failure(e),
                ) && final(self).spec_backend() == old(self).spec_backend(),
                Ok(words) => {
                    let sent = final(self).spec_backend().transmissions();
                    &&& final(self).spec_tx_words() == words
                    &&& words.len() <= TX_CAPACITY
                    &&& sent == old(self).spec_backend().transmissions().push((words, sent.last().1))
                    &&& r == backend_outcome::<Codec::EncodeError, Backend::Error>(sent.last().1)
                },
            },
    {
        let config = LedStripConfig::new(pixels.len(), self.color_order);
        proof {
            self.codec.lemma_encode_len(config, pixels@, TX_CAPACITY as int);
        }
        match self.codec.encode::<TX_CAPACITY>(&config, pixels, &mut self.tx_buf) {
            Ok(()) => {},
            Err(e) => {
                let wrapped = e.map_operation(codec_refresh_error::<Codec::EncodeError, Backend::Error>);
                return Err(wrapped);
            },
        }
        match self.backend.transmit(self.tx_buf.as_slice()) {
            Ok(()) => Ok(()),
            Err(error) => Err(LedStripError::Operation(RefreshError::Backend(error))),
        }
    }

    /// Destructures the driver, returning the codec and the backend, e.g. to
    /// reuse the SPI bus once the strip is no longer needed.
    pub fn into_parts(self) -> (parts: (Codec, Backend))
        ensures
            parts.0 == self.spec_codec(),
            parts.1 == self.spec_backend(),
    {
        (self.codec, self.backend)
    }
}

} // verus!

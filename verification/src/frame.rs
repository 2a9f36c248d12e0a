//! Fixed-capacity pixel frame buffer.
use vstd::prelude::*;

use crate::config::LedStripConfig;
use crate::pixel::LedPixel;
use crate::protocol::SingleWireProtocol;
use crate::text::{buffer_too_small_text, invalid_length_text, push_buffer_too_small, push_invalid_length};

verus! {

/// Errors of [`FrameBuf`] operations.
///
/// Separate from `LedStripError` so that `FrameBuf` does not carry an
/// `Operation` type parameter that is never constructed.
#[derive(Debug, Clone, Copy, PartialEq, Eq, Structural)]
pub enum FrameError {
    /// Pixel index out of range.
    InvalidIndex,
    /// Supplied pixel slice length does not match the frame size.
    InvalidLength { expected: usize, actual: usize },
    /// Capacity (`MAX_LEDS`) too small for the requested frame.
    BufferTooSmall { required: usize, capacity: usize },
}

impl FrameError {
    /// The human-readable message of the error.
    pub open spec fn text(self) -> Seq<char> {
        match self {
            FrameError::InvalidIndex => "invalid pixel index"@,
            FrameError::InvalidLength { expected, actual } => invalid_length_text(expected, actual),
            FrameError::BufferTooSmall { required, capacity } => buffer_too_small_text(
                required,
                capacity,
            ),
        }
    }

    /// Renders the error as a message, e.g. "invalid pixel index".
    pub fn to_string(&self) -> (s: String)
        ensures
            s@ == self.text(),
    {
        let mut s = String::new();
        match self {
            FrameError::InvalidIndex => s.append("invalid pixel index"),
            FrameError::InvalidLength { expected, actual } => push_invalid_length(&mut s, *expected, *actual),
            FrameError::BufferTooSmall { required, capacity } => push_buffer_too_small(
                &mut s,
                *required,
                *capacity,
            ),
        }
        s
    }
}

/// Pixel frame buffer of at most `MAX_LEDS` pixels.
///
/// Construction fails with [`FrameError::BufferTooSmall`] if the requested
/// length exceeds `MAX_LEDS`; the length never changes afterwards.
#[derive(Debug)]
pub struct FrameBuf<P, const MAX_LEDS: usize> where P: LedPixel {
    pixels: Vec<P>,
}

impl<P, const MAX_LEDS: usize> View for FrameBuf<P, MAX_LEDS> where P: LedPixel {
    type V = Seq<P>;

    closed spec fn view(&self) -> Seq<P> {
        self.pixels@
    }
}

impl<P, const MAX_LEDS: usize> Clone for FrameBuf<P, MAX_LEDS> where P: LedPixel {
    /// An independent frame with the same pixels.
    fn clone(&self) -> (copy: Self)
        ensures
            copy@ == self@,
    {
        let mut pixels: Vec<P> = Vec::new();
        let mut i: usize = 0;
        while i < self.pixels.len()
            invariant
                i <= self.pixels@.len(),
                pixels@ == self.pixels@.take(i as int),
            decreases self.pixels@.len() - i,
        {
            pixels.push(self.pixels[i]);
            i = i + 1;
            assert(pixels@ =~= self.pixels@.take(i as int));
        }
        assert(self.pixels@.take(i as int) =~= self.pixels@);
        Self { pixels }
    }
}

impl<P, const MAX_LEDS: usize> FrameBuf<P, MAX_LEDS> where P: LedPixel {
    /// The frame holds at most `MAX_LEDS` pixels. Every constructor
    /// establishes it, and every operation keeps the length unchanged.
    pub open spec fn within_capacity(&self) -> bool {
        self@.len() <= MAX_LEDS
    }

    /// Creates a frame of `len` pixels, all off (`P::default()`).
    pub fn new(len: usize) -> (r: Result<Self, FrameError>)
        ensures
            len > MAX_LEDS ==> r == Err::<Self, FrameError>(
                FrameError::BufferTooSmall { required: len, capacity: MAX_LEDS },
            ),
            len <= MAX_LEDS ==> (r matches Ok(frame) && frame@ == Seq::new(
                len as nat,
                |i: int| P::spec_off(),
            )),
            r matches Ok(frame) ==> frame.within_capacity(),
    {
        if len > MAX_LEDS {
            return Err(FrameError::BufferTooSmall { required: len, capacity: MAX_LEDS });
        }
        let mut pixels: Vec<P> = Vec::new();
        let off = P::off();
        let mut i: usize = 0;
        while i < len
            invariant
                i <= len <= MAX_LEDS,
                off == P::spec_off(),
                pixels@ == Seq::new(i as nat, |k: int| P::spec_off()),
            decreases len - i,
        {
            pixels.push(off);
            i = i + 1;
            assert(pixels@ =~= Seq::new(i as nat, |k: int| P::spec_off()));
        }
        Ok(Self { pixels })
    }

    /// Creates a frame whose size matches the given configuration.
    pub fn from_config<Proto>(config: &LedStripConfig<P, Proto>) -> (r: Result<Self, FrameError>) where
        Proto: SingleWireProtocol<P>,
        ensures
            config.len() > MAX_LEDS ==> r == Err::<Self, FrameError>(
                FrameError::BufferTooSmall { required: config.len(), capacity: MAX_LEDS },
            ),
            config.len() <= MAX_LEDS ==> (r matches Ok(frame) && frame@ == Seq::new(
                config.len() as nat,
                |i: int| P::spec_off(),
            )),
            r matches Ok(frame) ==> frame.within_capacity(),
    {
        Self::new(config.len())
    }

    /// Number of pixels in the frame.
    pub fn len(&self) -> (n: usize)
        ensures
            n == self@.len(),
    {
        self.pixels.len()
    }

    /// Whether the frame has no pixels.
    pub fn is_empty(&self) -> (b: bool)
        ensures
            b == (self@.len() == 0),
    {
        self.pixels.len() == 0
    }

    /// The capacity `MAX_LEDS`.
    pub fn capacity(&self) -> (n: usize)
        ensures
            n == MAX_LEDS,
    {
        MAX_LEDS
    }

    /// The pixels of the frame.
    pub fn as_slice(&self) -> (s: &[P])
        ensures
            s@ == self@,
    {
        self.pixels.as_slice()
    }

    /// The pixels of the frame, for in-place changes; the frame holds what
    /// the slice holds once the borrow ends.
    pub fn as_mut_slice(&mut self) -> (s: &mut [P])
        ensures
            s@ == old(self)@,
            final(self)@ == final(s)@,
    {
        self.pixels.as_mut_slice()
    }

    /// Sets the pixel at `index`; [`FrameError::InvalidIndex`] if out of bounds.
    pub fn set(&mut self, index: usize, pixel: P) -> (r: Result<(), FrameError>)
        ensures
            index < old(self)@.len() ==> r is Ok && final(self)@ == old(self)@.update(
                index as int,
                pixel,
            ),
            index >= old(self)@.len() ==> r == Err::<(), FrameError>(FrameError::InvalidIndex)
                && final(self)@ == old(self)@,
    {
        if index >= self.pixels.len() {
            return Err(FrameError::InvalidIndex);
        }
        self.pixels.set(index, pixel);
        Ok(())
    }

    /// Overwrites all pixels with `pixels`, whose length must equal `len()`.
    pub fn write(&mut self, pixels: &[P]) -> (r: Result<(), FrameError>)
        ensures
            pixels@.len() == old(self)@.len() ==> r is Ok && final(self)@ == pixels@,
            pixels@.len() != old(self)@.len() ==> r == Err::<(), FrameError>(
                FrameError::InvalidLength { expected: old(self)@.len() as usize, actual: pixels@.len() as usize },
            ) && final(self)@ == old(self)@,
    {
        if pixels.len() != self.pixels.len() {
            return Err(FrameError::InvalidLength { expected: self.pixels.len(), actual: pixels.len() });
        }
        let mut i: usize = 0;
        while i < pixels.len()
            invariant
                i <= pixels@.len() == self.pixels@.len(),
                forall|k: int| 0 <= k < i ==> self.pixels@[k] == pixels@[k],
            decreases pixels@.len() - i,
        {
            self.pixels.set(i, pixels[i]);
            i = i + 1;
        }
        assert(self.pixels@ =~= pixels@);
        Ok(())
    }

    /// Fills every pixel with `pixel`.
    pub fn fill(&mut self, pixel: P)
        ensures
            final(self)@ == Seq::new(old(self)@.len(), |i: int| pixel),
    {
        let mut i: usize = 0;
        while i < self.pixels.len()
            invariant
                i <= self.pixels@.len() == old(self)@.len(),
                forall|k: int| 0 <= k < i ==> self.pixels@[k] == pixel,
            decreases self.pixels@.len() - i,
        {
            self.pixels.set(i, pixel);
            i = i + 1;
        }
        assert(self.pixels@ =~= Seq::new(old(self)@.len(), |i: int| pixel));
    }

    /// Turns every pixel off (`P::default()`).
    pub fn clear(&mut self)
        ensures
            final(self)@ == Seq::new(old(self)@.len(), |i: int| P::spec_off()),
    {
        let off = P::off();
        self.fill(off);
    }
}

} // verus!

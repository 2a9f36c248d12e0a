use vstd::prelude::*;

verus! {

/// Marker that keeps the set of pixel formats closed: only the formats of
/// this crate implement it, so no other crate can implement `LedPixel`.
pub trait Sealed {}

impl Sealed for crate::pixel::Rgb {}

impl Sealed for crate::pixel::Rgb16 {}

impl Sealed for crate::pixel::Rgbw {}

} // verus!

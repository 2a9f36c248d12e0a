//! `no_std`-style driver core for single-wire addressable LED strips
//! (WS2812B, SK6812, WS2811, WS2816).
use vstd::prelude::*;

mod api;
mod bitstream;
mod config;
mod error;
mod frame;
mod pixel;
mod protocol;
mod spi;
mod text;

pub use api::{LedStrip, RefreshError, TransportBackend, WireCodec};
pub use config::LedStripConfig;
pub use error::{LedStripError, LedStripResult};
pub use frame::{FrameBuf, FrameError};
pub use pixel::{LedPixel, PixelKind, Rgb, Rgb16, Rgb16Order, RgbOrder, Rgbw, RgbwOrder};
pub use protocol::{BitOrder, PulseTiming, SingleWireProtocol, Sk6812, Ws2811, Ws2812B, Ws2816};

pub use spi::{SpiBackend, SpiCodec, SpiCodecPlanError, SpiEncodingPlan, TimingEdge};

verus! {

} // verus!

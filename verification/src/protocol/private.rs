use vstd::prelude::*;

verus! {

/// Marker that keeps the set of protocols closed: only the protocol markers
/// of this crate implement it, so no other crate can implement
/// `SingleWireProtocol`.
pub trait ProtocolSealed {}

impl ProtocolSealed for crate::protocol::Ws2812B {}

impl ProtocolSealed for crate::protocol::Ws2811 {}

impl ProtocolSealed for crate::protocol::Sk6812 {}

impl ProtocolSealed for crate::protocol::Ws2816 {}

} // verus!

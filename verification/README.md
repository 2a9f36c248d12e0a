# led_strip

A driver core for single-wire addressable LED strips (WS2812B, SK6812, WS2811,
WS2816), written in Verus. Pixels are encoded by a codec into transport words,
which a backend pushes onto the wire; the SPI codec sends every protocol bit as
a short SPI bit pattern and the reset latch as fill bytes.

## Layout

- `src/pixel.rs`, `src/protocol.rs`, `src/config.rs`: pixel formats with their
  wire layout, protocol timings, strip configuration.
- `src/bitstream.rs`: the model of the SPI symbol stream (`stream_bits`,
  `packed`) and the packing kernel proved against it.
- `src/spi.rs`: encoding plans, their structural and timing checks, the SPI
  codec (its frames are stated exactly by `SpiCodec::frame_for`), and the SPI
  backend, whose bus write is the one call into `embedded-hal`.
- `src/api.rs`: the `WireCodec` and `TransportBackend` traits and `LedStrip`.
- `src/frame.rs`, `src/error.rs`, `src/text.rs`: the frame buffer, the error
  types and their messages.
- `app/lib.rs`: what Verus does not take: `Display`/`Error` for copies of the
  error types, and a `TransportBackend` over an `embedded-hal` SPI bus.

The protocols' timings, reset times, bit orders and color orders are open
spec functions of `SingleWireProtocol`, so contracts over them give concrete
results for each protocol. The frame buffer and the transmit buffer are
`std::vec::Vec`s, not `heapless` vectors: a specification of a `heapless`
vector's contents would have to be generic over its capacity parameter,
which the specifications here cannot be. The capacity limits (`MAX_LEDS`,
`TX_CAPACITY`) are part of the contracts instead, so the driver allocates
on the heap, unlike a `no_std` build.

The tests under `tests/` run the library with the real `embedded-hal`.

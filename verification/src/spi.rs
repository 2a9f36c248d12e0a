//! SPI encoding of single-wire LED protocols: each protocol bit is sent as a
//! short SPI bit pattern (a symbol), and the reset latch as fill bytes.
use vstd::prelude::*;

use core::convert::Infallible;

use crate::api::WireCodec;
use crate::bitstream::{
    append_pattern, bit_position, byte_symbols, complement, data_bit, flush_bits, frame_bytes,
    holds_bits, packed, stream_bits, symbol_bits,
};
use crate::config::LedStripConfig;
use crate::error::{LedStripError, LedStripResult};
use crate::pixel::LedPixel;
use crate::protocol::{BitOrder, SingleWireProtocol};
use crate::text::{decimal, hex_byte, push_decimal, push_hex_byte};

verus! {

/// SPI clock frequency, bit patterns, and symbol width for encoding a
/// single-wire LED protocol over an SPI bus.
///
/// Each protocol bit is encoded as `bits_per_symbol` SPI bits (typically 3 or
/// 4). For example, WS2812B uses 3-bit symbols: `0b100` for logical 0, `0b110`
/// for logical 1.
#[derive(Debug, Clone, Copy, PartialEq, Eq, Structural)]
pub struct SpiEncodingPlan {
    /// SPI clock frequency in Hz.
    spi_hz: u32,
    /// SPI bit pattern for a logical 0 (MSB-first within the symbol window).
    zero_pattern: u8,
    /// SPI bit pattern for a logical 1 (MSB-first within the symbol window).
    one_pattern: u8,
    /// Number of SPI bits used to encode one protocol bit.
    bits_per_symbol: u8,
    /// Reset time added to the protocol's own reset duration, in nanoseconds.
    extra_reset_ns: u32,
}

impl SpiEncodingPlan {
    pub closed spec fn spec_spi_hz(&self) -> u32 {
        self.spi_hz
    }

    pub closed spec fn spec_zero_pattern(&self) -> u8 {
        self.zero_pattern
    }

    pub closed spec fn spec_one_pattern(&self) -> u8 {
        self.one_pattern
    }

    pub closed spec fn spec_bits_per_symbol(&self) -> u8 {
        self.bits_per_symbol
    }

    pub closed spec fn spec_extra_reset_ns(&self) -> u32 {
        self.extra_reset_ns
    }

    /// Creates an encoding plan with no extra reset time. The plan is checked
    /// when a codec is built from it ([`SpiCodec::new`],
    /// [`SpiCodec::for_protocol`]).
    pub fn new(spi_hz: u32, zero_pattern: u8, one_pattern: u8, bits_per_symbol: u8) -> (plan: Self)
        ensures
            plan.spi_hz() == spi_hz,
            plan.zero_pattern() == zero_pattern,
            plan.one_pattern() == one_pattern,
            plan.bits_per_symbol() == bits_per_symbol,
            plan.extra_reset_ns() == 0,
    {
        Self { spi_hz, zero_pattern, one_pattern, bits_per_symbol, extra_reset_ns: 0 }
    }

    /// 3-bit SPI plan at 2.4 MHz for WS2812 / WS2812B.
    ///
    /// One SPI bit lasts about 416 ns, so T0H is about 416 ns, T0L about
    /// 833 ns, T1H about 833 ns and T1L about 416 ns. A pixel of 3 channels
    /// takes 3 x 8 x 3 / 8 = 9 bytes.
    pub fn ws281x_3bit() -> (plan: Self)
        ensures
            plan.spi_hz() == 2_400_000,
            plan.zero_pattern() == 0b100,
            plan.one_pattern() == 0b110,
            plan.bits_per_symbol() == 3,
            plan.extra_reset_ns() == 0,
    {
        Self::new(2_400_000, 0b100, 0b110, 3)
    }

    /// 4-bit SPI plan at 3.2 MHz for SK6812.
    ///
    /// One SPI bit lasts about 312 ns, so T0H is about 312 ns, T0L about
    /// 937 ns, T1H and T1L about 625 ns. A pixel of 4 channels takes
    /// 4 x 8 x 4 / 8 = 16 bytes.
    pub fn sk6812_4bit() -> (plan: Self)
        ensures
            plan.spi_hz() == 3_200_000,
            plan.zero_pattern() == 0b1000,
            plan.one_pattern() == 0b1100,
            plan.bits_per_symbol() == 4,
            plan.extra_reset_ns() == 0,
    {
        Self::new(3_200_000, 0b1000, 0b1100, 4)
    }

    /// The same plan with `extra_reset_ns` of reset time added to the
    /// protocol's reset duration (for external signal conditioning).
    pub fn with_extra_reset_ns(self, extra_reset_ns: u32) -> (plan: Self)
        ensures
            plan.spi_hz() == self.spi_hz(),
            plan.zero_pattern() == self.zero_pattern(),
            plan.one_pattern() == self.one_pattern(),
            plan.bits_per_symbol() == self.bits_per_symbol(),
            plan.extra_reset_ns() == extra_reset_ns,
    {
        let mut plan = self;
        plan.extra_reset_ns = extra_reset_ns;
        plan
    }

    #[verifier::when_used_as_spec(spec_spi_hz)]
    pub fn spi_hz(&self) -> (hz: u32)
        ensures
            hz == self.spec_spi_hz(),
    {
        self.spi_hz
    }

    #[verifier::when_used_as_spec(spec_zero_pattern)]
    pub fn zero_pattern(&self) -> (p: u8)
        ensures
            p == self.spec_zero_pattern(),
    {
        self.zero_pattern
    }

    #[verifier::when_used_as_spec(spec_one_pattern)]
    pub fn one_pattern(&self) -> (p: u8)
        ensures
            p == self.spec_one_pattern(),
    {
        self.one_pattern
    }

    #[verifier::when_used_as_spec(spec_bits_per_symbol)]
    pub fn bits_per_symbol(&self) -> (n: u8)
        ensures
            n == self.spec_bits_per_symbol(),
    {
        self.bits_per_symbol
    }

    #[verifier::when_used_as_spec(spec_extra_reset_ns)]
    pub fn extra_reset_ns(&self) -> (ns: u32)
        ensures
            ns == self.spec_extra_reset_ns(),
    {
        self.extra_reset_ns
    }
}

/// Identifies one of the four timing edges of a single-wire protocol bit:
/// T0H (zero high), T0L (zero low), T1H (one high), T1L (one low).
#[derive(Debug, Clone, Copy, PartialEq, Eq, Structural)]
pub enum TimingEdge {
    /// Logical 0, high phase.
    ZeroHigh,
    /// Logical 0, low phase.
    ZeroLow,
    /// Logical 1, high phase.
    OneHigh,
    /// Logical 1, low phase.
    OneLow,
}

impl TimingEdge {
    /// The protocol label of the edge: "T0H", "T0L", "T1H" or "T1L".
    pub open spec fn label(self) -> Seq<char> {
        match self {
            TimingEdge::ZeroHigh => "T0H"@,
            TimingEdge::ZeroLow => "T0L"@,
            TimingEdge::OneHigh => "T1H"@,
            TimingEdge::OneLow => "T1L"@,
        }
    }

    /// Renders the edge as its protocol label.
    pub fn to_string(&self) -> (s: String)
        ensures
            s@ == self.label(),
    {
        let mut s = String::new();
        self.push_label(&mut s);
        s
    }

    fn push_label(&self, s: &mut String)
        ensures
            final(s)@ == old(s)@ + self.label(),
    {
        match self {
            TimingEdge::ZeroHigh => s.append("T0H"),
            TimingEdge::ZeroLow => s.append("T0L"),
            TimingEdge::OneHigh => s.append("T1H"),
            TimingEdge::OneLow => s.append("T1L"),
        }
    }
}

/// Errors returned when constructing a [`SpiCodec`] or validating an
/// [`SpiEncodingPlan`] against a protocol's timing tolerances.
#[derive(Debug, Clone, Copy, PartialEq, Eq, Structural)]
pub enum SpiCodecPlanError {
    ZeroClock,
    ZeroBitsPerSymbol,
    BitsPerSymbolTooWide { bits_per_symbol: u8 },
    PatternOutOfRange { pattern: u8, bits_per_symbol: u8 },
    TimingOutOfTolerance { edge: TimingEdge, actual_ns: u32, expected_ns: u32, tolerance_ns: u32 },
}

impl SpiCodecPlanError {
    /// The human-readable message of the error.
    pub open spec fn text(self) -> Seq<char> {
        match self {
            SpiCodecPlanError::ZeroClock => "invalid SPI plan: spi_hz must be non-zero"@,
            SpiCodecPlanError::ZeroBitsPerSymbol => "invalid SPI plan: bits_per_symbol must be non-zero"@,
            SpiCodecPlanError::BitsPerSymbolTooWide { bits_per_symbol } => "invalid SPI plan: bits_per_symbol="@
                + decimal(bits_per_symbol as nat) + " exceeds 8"@,
            SpiCodecPlanError::PatternOutOfRange { pattern, bits_per_symbol } => "invalid SPI plan: pattern=0x"@
                + hex_byte(pattern) + " out of range for bits_per_symbol="@ + decimal(
                bits_per_symbol as nat,
            ),
            SpiCodecPlanError::TimingOutOfTolerance { edge, actual_ns, expected_ns, tolerance_ns } =>
                "timing out of tolerance: edge="@ + edge.label() + " actual="@ + decimal(
                actual_ns as nat,
            ) + "ns expected="@ + decimal(expected_ns as nat) + "ns tolerance=\u{00B1}"@ + decimal(
                tolerance_ns as nat,
            ) + "ns"@,
        }
    }

    /// Renders the error as a message, e.g.
    /// "invalid SPI plan: spi_hz must be non-zero".
    pub fn to_string(&self) -> (s: String)
        ensures
            s@ == self.text(),
    {
        let mut s = String::new();
        match self {
            SpiCodecPlanError::ZeroClock => s.append("invalid SPI plan: spi_hz must be non-zero"),
            SpiCodecPlanError::ZeroBitsPerSymbol => s.append(
                "invalid SPI plan: bits_per_symbol must be non-zero",
            ),
            SpiCodecPlanError::BitsPerSymbolTooWide { bits_per_symbol } => {
                s.append("invalid SPI plan: bits_per_symbol=");
                push_decimal(&mut s, *bits_per_symbol as u64);
                s.append(" exceeds 8");
            },
            SpiCodecPlanError::PatternOutOfRange { pattern, bits_per_symbol } => {
                s.append("invalid SPI plan: pattern=0x");
                push_hex_byte(&mut s, *pattern);
                s.append(" out of range for bits_per_symbol=");
                push_decimal(&mut s, *bits_per_symbol as u64);
            },
            SpiCodecPlanError::TimingOutOfTolerance { edge, actual_ns, expected_ns, tolerance_ns } => {
                s.append("timing out of tolerance: edge=");
                edge.push_label(&mut s);
                s.append(" actual=");
                push_decimal(&mut s, *actual_ns as u64);
                s.append("ns expected=");
                push_decimal(&mut s, *expected_ns as u64);
                s.append("ns tolerance=\u{00B1}");
                push_decimal(&mut s, *tolerance_ns as u64);
                s.append("ns");
            },
        }
        assert(s@ =~= self.text());
        s
    }
}

/// The mask of the `bits_per_symbol` low bits of a byte (`bits_per_symbol <= 8`).
pub open spec fn symbol_mask(bits_per_symbol: u8) -> u8 {
    if bits_per_symbol >= 8 {
        0xffu8
    } else {
        ((1u8 << bits_per_symbol) - 1) as u8
    }
}

/// The symbol window of each width from 1 to 7 bits, spelled out.
proof fn lemma_low_masks()
    by (bit_vector)
    ensures
        ((1u8 << 1u8) - 1) as u8 == 1u8,
        ((1u8 << 2u8) - 1) as u8 == 3u8,
        ((1u8 << 3u8) - 1) as u8 == 7u8,
        ((1u8 << 4u8) - 1) as u8 == 15u8,
        ((1u8 << 5u8) - 1) as u8 == 31u8,
        ((1u8 << 6u8) - 1) as u8 == 63u8,
        ((1u8 << 7u8) - 1) as u8 == 127u8,
{
}

/// The mask of a 1- to 8-bit symbol is `2^bits_per_symbol - 1`.
pub proof fn lemma_symbol_mask_pow2(bits_per_symbol: u8)
    requires
        1 <= bits_per_symbol <= 8,
    ensures
        symbol_mask(bits_per_symbol) == vstd::arithmetic::power2::pow2(bits_per_symbol as nat) - 1,
{
    lemma_low_masks();
    vstd::arithmetic::power2::lemma2_to64();
}

/// Law: a plan passes the structural check exactly when its clock is not
/// zero, its symbols are 1 to 8 bits wide, and both patterns fit in a
/// symbol, that is, are below `2^bits_per_symbol`. Otherwise, with a valid
/// clock and width, the first pattern that does not fit is reported with its
/// value.
pub proof fn lemma_plan_check_window(plan: SpiEncodingPlan)
    ensures
        plan_check(plan) is Ok <==> {
            &&& plan.spi_hz() != 0
            &&& 1 <= plan.bits_per_symbol() <= 8
            &&& plan.zero_pattern() < vstd::arithmetic::power2::pow2(plan.bits_per_symbol() as nat)
            &&& plan.one_pattern() < vstd::arithmetic::power2::pow2(plan.bits_per_symbol() as nat)
        },
        plan.spi_hz() != 0 && 1 <= plan.bits_per_symbol() <= 8 && plan.zero_pattern()
            >= vstd::arithmetic::power2::pow2(plan.bits_per_symbol() as nat) ==> plan_check(plan)
            == Err::<(), SpiCodecPlanError>(
            SpiCodecPlanError::PatternOutOfRange {
                pattern: plan.zero_pattern(),
                bits_per_symbol: plan.bits_per_symbol(),
            },
        ),
        plan.spi_hz() != 0 && 1 <= plan.bits_per_symbol() <= 8 && plan.zero_pattern()
            < vstd::arithmetic::power2::pow2(plan.bits_per_symbol() as nat) && plan.one_pattern()
            >= vstd::arithmetic::power2::pow2(plan.bits_per_symbol() as nat) ==> plan_check(plan)
            == Err::<(), SpiCodecPlanError>(
            SpiCodecPlanError::PatternOutOfRange {
                pattern: plan.one_pattern(),
                bits_per_symbol: plan.bits_per_symbol(),
            },
        ),
{
    if 1 <= plan.bits_per_symbol() <= 8 {
        lemma_symbol_mask_pow2(plan.bits_per_symbol());
    }
}

/// The structural check of a plan: the first failing rule, in this order,
/// or `Ok`.
pub open spec fn plan_check(plan: SpiEncodingPlan) -> Result<(), SpiCodecPlanError> {
    let bps = plan.bits_per_symbol();
    if plan.spi_hz() == 0 {
        Err(SpiCodecPlanError::ZeroClock)
    } else if bps == 0 {
        Err(SpiCodecPlanError::ZeroBitsPerSymbol)
    } else if bps > 8 {
        Err(SpiCodecPlanError::BitsPerSymbolTooWide { bits_per_symbol: bps })
    } else if plan.zero_pattern() > symbol_mask(bps) {
        Err(SpiCodecPlanError::PatternOutOfRange { pattern: plan.zero_pattern(), bits_per_symbol: bps })
    } else if plan.one_pattern() > symbol_mask(bps) {
        Err(SpiCodecPlanError::PatternOutOfRange { pattern: plan.one_pattern(), bits_per_symbol: bps })
    } else {
        Ok(())
    }
}

/// The number of consecutive set bits of `pattern` counted down from bit
/// `width - 1`.
pub open spec fn leading_ones(pattern: u8, width: int) -> nat
    decreases width,
{
    if width <= 0 {
        0
    } else if (pattern >> ((width - 1) as u8)) & 1u8 == 1u8 {
        1 + leading_ones(pattern, width - 1)
    } else {
        0
    }
}

/// Duration of one SPI bit in whole nanoseconds.
pub open spec fn spi_bit_ns(plan: SpiEncodingPlan) -> int {
    1_000_000_000int / (plan.spi_hz() as int)
}

/// Number of SPI bits that make up `edge` under `plan`: the high phase of a
/// symbol is its run of leading ones, the low phase the rest of the symbol.
pub open spec fn edge_bits(plan: SpiEncodingPlan, edge: TimingEdge) -> int {
    let bps = plan.bits_per_symbol() as int;
    match edge {
        TimingEdge::ZeroHigh => leading_ones(plan.zero_pattern(), bps) as int,
        TimingEdge::ZeroLow => bps - leading_ones(plan.zero_pattern(), bps),
        TimingEdge::OneHigh => leading_ones(plan.one_pattern(), bps) as int,
        TimingEdge::OneLow => bps - leading_ones(plan.one_pattern(), bps),
    }
}

/// Actual duration of `edge` under `plan`, in nanoseconds.
pub open spec fn edge_actual_ns(plan: SpiEncodingPlan, edge: TimingEdge) -> int {
    edge_bits(plan, edge) * spi_bit_ns(plan)
}

/// Nominal duration of `edge` for the protocol, in nanoseconds.
pub open spec fn edge_expected_ns<P: LedPixel, Proto: SingleWireProtocol<P>>(edge: TimingEdge) -> u32 {
    match edge {
        TimingEdge::ZeroHigh => Proto::spec_zero().high_ns,
        TimingEdge::ZeroLow => Proto::spec_zero().low_ns,
        TimingEdge::OneHigh => Proto::spec_one().high_ns,
        TimingEdge::OneLow => Proto::spec_one().low_ns,
    }
}

/// Whether `edge` lies within the protocol's tolerance:
/// `|actual - expected| <= tolerance`.
pub open spec fn edge_within<P: LedPixel, Proto: SingleWireProtocol<P>>(
    plan: SpiEncodingPlan,
    edge: TimingEdge,
) -> bool {
    let d = edge_actual_ns(plan, edge) - edge_expected_ns::<P, Proto>(edge);
    let tolerance = Proto::spec_timing_tolerance_ns() as int;
    -tolerance <= d <= tolerance
}

/// `x`, or `u32::MAX` when `x` does not fit in a `u32`.
pub open spec fn saturate_u32(x: int) -> u32 {
    if x > u32::MAX {
        u32::MAX
    } else {
        x as u32
    }
}

/// The error reported for `edge`; a duration beyond `u32::MAX` nanoseconds is
/// reported as `u32::MAX`.
pub open spec fn edge_error<P: LedPixel, Proto: SingleWireProtocol<P>>(
    plan: SpiEncodingPlan,
    edge: TimingEdge,
) -> SpiCodecPlanError {
    SpiCodecPlanError::TimingOutOfTolerance {
        edge,
        actual_ns: saturate_u32(edge_actual_ns(plan, edge)),
        expected_ns: edge_expected_ns::<P, Proto>(edge),
        tolerance_ns: Proto::spec_timing_tolerance_ns(),
    }
}

/// The timing check of a structurally valid plan: the first edge, in the
/// order T0H, T0L, T1H, T1L, that is out of tolerance, or `Ok`.
pub open spec fn timing_check<P: LedPixel, Proto: SingleWireProtocol<P>>(
    plan: SpiEncodingPlan,
) -> Result<(), SpiCodecPlanError> {
    if !edge_within::<P, Proto>(plan, TimingEdge::ZeroHigh) {
        Err(edge_error::<P, Proto>(plan, TimingEdge::ZeroHigh))
    } else if !edge_within::<P, Proto>(plan, TimingEdge::ZeroLow) {
        Err(edge_error::<P, Proto>(plan, TimingEdge::ZeroLow))
    } else if !edge_within::<P, Proto>(plan, TimingEdge::OneHigh) {
        Err(edge_error::<P, Proto>(plan, TimingEdge::OneHigh))
    } else if !edge_within::<P, Proto>(plan, TimingEdge::OneLow) {
        Err(edge_error::<P, Proto>(plan, TimingEdge::OneLow))
    } else {
        Ok(())
    }
}

/// The symbol a codec sends for `pattern`: the pattern itself, or its
/// complement within the symbol window when the output line is inverted.
pub open spec fn line_pattern(pattern: u8, bits_per_symbol: u8, invert_output: bool) -> u8 {
    if invert_output {
        (!pattern) & symbol_mask(bits_per_symbol)
    } else {
        pattern
    }
}

/// The level of the idle line during reset: all zeros, or all ones when the
/// output line is inverted.
pub open spec fn line_fill(invert_output: bool) -> u8 {
    if invert_output {
        0xffu8
    } else {
        0u8
    }
}

/// `x / d`, rounded up.
pub open spec fn ceil_div(x: int, d: int) -> int {
    (x + d - 1) / d
}

/// `x`, or `usize::MAX` when `x` does not fit in a `usize`.
pub open spec fn saturate_usize(x: int) -> int {
    if x > usize::MAX {
        usize::MAX as int
    } else {
        x
    }
}

/// Number of reset fill bytes that cover `reset_ns + extra_reset_ns` at
/// `spi_hz`: `ceil((reset_ns + extra_reset_ns) * spi_hz / 8e9)`, or
/// `usize::MAX` when the product does not fit in a `u64` or the count does
/// not fit in a `usize`.
pub open spec fn reset_byte_count(reset_ns: u32, extra_reset_ns: u32, spi_hz: u32) -> int {
    let scaled = (reset_ns + extra_reset_ns) * spi_hz;
    if scaled > u64::MAX {
        usize::MAX as int
    } else {
        saturate_usize(ceil_div(scaled, 8_000_000_000))
    }
}

/// Number of bytes of a frame of `frame_bytes` data bytes sent as
/// `bits_per_symbol`-bit symbols, packed eight to a byte, followed by
/// `reset_bytes` of reset fill; `usize::MAX` when the symbol bits or the
/// total do not fit in a `usize`.
pub open spec fn encoded_len_of(frame_bytes: int, bits_per_symbol: int, reset_bytes: int) -> int {
    let payload_bits = frame_bytes * 8 * bits_per_symbol;
    if payload_bits > usize::MAX {
        usize::MAX as int
    } else {
        saturate_usize(ceil_div(payload_bits, 8) + reset_bytes)
    }
}

/// SPI-based wire codec: encodes LED pixel data into a byte stream using the
/// bit patterns of an [`SpiEncodingPlan`] (bit-banging over SPI MOSI).
///
/// The patterns to send (inverted, for an inverting output stage) and the
/// reset fill byte are computed once, at construction.
#[derive(Debug)]
pub struct SpiCodec {
    plan: SpiEncodingPlan,
    /// Zero-bit pattern, pre-inverted if `invert_output` was set at construction.
    zero_pattern: u8,
    /// One-bit pattern, pre-inverted if `invert_output` was set at construction.
    one_pattern: u8,
    /// Reset fill byte: 0x00 for normal, 0xFF for inverted output.
    reset_fill: u8,
}

impl SpiCodec {
    /// A codec always holds a structurally valid plan, and the patterns and
    /// fill byte derived from it for one output polarity.
    #[verifier::type_invariant]
    closed spec fn inv(self) -> bool {
        &&& plan_check(self.plan) is Ok
        &&& (self.reset_fill == 0 || self.reset_fill == 0xff)
        &&& self.zero_pattern == line_pattern(
            self.plan.zero_pattern(),
            self.plan.bits_per_symbol(),
            self.reset_fill != 0,
        )
        &&& self.one_pattern == line_pattern(
            self.plan.one_pattern(),
            self.plan.bits_per_symbol(),
            self.reset_fill != 0,
        )
    }

    pub closed spec fn spec_plan(&self) -> SpiEncodingPlan {
        self.plan
    }

    /// Whether the codec drives an inverted output line.
    pub closed spec fn inverted(&self) -> bool {
        self.reset_fill != 0
    }

    pub closed spec fn spec_zero_pattern(&self) -> u8 {
        self.zero_pattern
    }

    pub closed spec fn spec_one_pattern(&self) -> u8 {
        self.one_pattern
    }

    pub closed spec fn spec_reset_fill(&self) -> u8 {
        self.reset_fill
    }

    /// The codec that `new` builds from a valid plan.
    pub open spec fn is_codec_for(self, plan: SpiEncodingPlan, invert_output: bool) -> bool {
        &&& self.plan() == plan
        &&& self.inverted() == invert_output
        &&& self.zero_pattern() == line_pattern(
            plan.zero_pattern(),
            plan.bits_per_symbol(),
            invert_output,
        )
        &&& self.one_pattern() == line_pattern(plan.one_pattern(), plan.bits_per_symbol(), invert_output)
        &&& self.reset_fill() == line_fill(invert_output)
    }

    /// Constructs a codec from a plan. Checks the plan's structure (clock,
    /// symbol width, pattern range) but not its timing; use
    /// [`for_protocol`](Self::for_protocol) for that.
    pub fn new(plan: SpiEncodingPlan, invert_output: bool) -> (r: Result<Self, SpiCodecPlanError>)
        ensures
            match plan_check(plan) {
                Err(e) => r == Err::<Self, SpiCodecPlanError>(e),
                Ok(_) => r matches Ok(codec) && codec.is_codec_for(plan, invert_output),
            },
    {
        validate_plan(plan)?;
        Ok(Self::from_plan(plan, invert_output))
    }

    /// Constructs a codec after checking both the plan's structure and its
    /// timing against `Proto`: each of the four edges T0H, T0L, T1H, T1L must
    /// be within the protocol's timing tolerance of its nominal value.
    pub fn for_protocol<P, Proto>(plan: SpiEncodingPlan, invert_output: bool) -> (r: Result<
        Self,
        SpiCodecPlanError,
    >) where P: LedPixel, Proto: SingleWireProtocol<P>
        ensures
            match plan_check(plan) {
                Err(e) => r == Err::<Self, SpiCodecPlanError>(e),
                Ok(_) => match timing_check::<P, Proto>(plan) {
                    Err(e) => r == Err::<Self, SpiCodecPlanError>(e),
                    Ok(_) => r matches Ok(codec) && codec.is_codec_for(plan, invert_output),
                },
            },
    {
        validate_plan(plan)?;
        validate_timing::<P, Proto>(&plan)?;
        Ok(Self::from_plan(plan, invert_output))
    }

    /// Computes the patterns to send and the reset fill for the output
    /// polarity. With `invert_output`, each pattern bit is flipped within the
    /// `bits_per_symbol`-wide window (e.g. 0b100 becomes 0b011 for 3-bit SPI).
    fn from_plan(plan: SpiEncodingPlan, invert_output: bool) -> (codec: Self)
        requires
            plan_check(plan) is Ok,
        ensures
            codec.is_codec_for(plan, invert_output),
    {
        if invert_output {
            let mask = pattern_mask(plan.bits_per_symbol());
            Self {
                zero_pattern: (!plan.zero_pattern()) & mask,
                one_pattern: (!plan.one_pattern()) & mask,
                reset_fill: u8::MAX,
                plan,
            }
        } else {
            Self {
                zero_pattern: plan.zero_pattern(),
                one_pattern: plan.one_pattern(),
                reset_fill: 0,
                plan,
            }
        }
    }

    /// The plan this codec was built from.
    #[verifier::when_used_as_spec(spec_plan)]
    pub fn plan(&self) -> (plan: SpiEncodingPlan)
        ensures
            plan == self.spec_plan(),
    {
        self.plan
    }

    /// The symbol sent for a logical 0 (inverted for an inverted line).
    #[verifier::when_used_as_spec(spec_zero_pattern)]
    pub fn zero_pattern(&self) -> (p: u8)
        ensures
            p == self.spec_zero_pattern(),
    {
        self.zero_pattern
    }

    /// The symbol sent for a logical 1 (inverted for an inverted line).
    #[verifier::when_used_as_spec(spec_one_pattern)]
    pub fn one_pattern(&self) -> (p: u8)
        ensures
            p == self.spec_one_pattern(),
    {
        self.one_pattern
    }

    /// The byte sent during reset: 0x00, or 0xFF for an inverted line.
    #[verifier::when_used_as_spec(spec_reset_fill)]
    pub fn reset_fill(&self) -> (fill: u8)
        ensures
            fill == self.spec_reset_fill(),
    {
        self.reset_fill
    }

    /// Number of reset fill bytes for this codec under `Proto`.
    pub open spec fn spec_reset_bytes<P: LedPixel, Proto: SingleWireProtocol<P>>(&self) -> int {
        reset_byte_count(Proto::spec_reset_ns(), self.plan().extra_reset_ns(), self.plan().spi_hz())
    }

    /// Exact number of bytes that `encode` produces for `config`.
    pub open spec fn spec_len_for<P: LedPixel, Proto: SingleWireProtocol<P>>(
        &self,
        config: LedStripConfig<P, Proto>,
    ) -> int {
        encoded_len_of(
            config.len() * P::BYTES_PER_PIXEL,
            self.plan().bits_per_symbol() as int,
            self.spec_reset_bytes::<P, Proto>(),
        )
    }

    /// The frame sent for `pixels`: every data bit of the pixels' wire bytes
    /// as a symbol, packed eight SPI bits to a byte (a partial last byte is
    /// filled with the idle line level), then the reset fill bytes.
    pub open spec fn frame_for<P: LedPixel, Proto: SingleWireProtocol<P>>(
        &self,
        config: LedStripConfig<P, Proto>,
        pixels: Seq<P>,
    ) -> Seq<u8> {
        packed(
            stream_bits(
                frame_bytes(pixels, config.color_order()),
                Proto::spec_bit_order(),
                self.zero_pattern(),
                self.one_pattern(),
                self.plan().bits_per_symbol(),
            ),
            self.inverted(),
        ) + Seq::new(self.spec_reset_bytes::<P, Proto>() as nat, |i: int| self.reset_fill())
    }

    /// Computes how many SPI bytes of `reset_fill` are needed to satisfy
    /// the protocol's reset time plus `extra_reset_ns` at the current SPI clock rate:
    /// `ceil(ns * spi_hz / 8e9)`.
    fn reset_bytes_for<P, Proto>(&self, config: &LedStripConfig<P, Proto>) -> (n: usize) where
        P: LedPixel,
        Proto: SingleWireProtocol<P>,
        ensures
            n == self.spec_reset_bytes::<P, Proto>(),
    {
        let total_reset_ns = (config.reset_ns() as u64) + (self.plan.extra_reset_ns as u64);
        // reset_ns x spi_hz counts clock cycles in units of 10^-9; dividing by
        // 8 x 10^9 turns that into SPI bytes in one step.
        let scaled_cycles = match total_reset_ns.checked_mul(self.plan.spi_hz as u64) {
            Some(c) => c,
            // Only at physically impossible parameters (multi-second reset at
            // GHz clocks); the result then fails any capacity check.
            None => {
                return usize::MAX;
            },
        };
        let whole = scaled_cycles / 8_000_000_000u64;
        let total_bytes = if scaled_cycles % 8_000_000_000u64 != 0 {
            whole + 1
        } else {
            whole
        };
        proof {
            lemma_ceil_div_parts(scaled_cycles as int, 8_000_000_000);
        }
        if total_bytes > usize::MAX as u64 {
            usize::MAX
        } else {
            total_bytes as usize
        }
    }
}

impl<P, Proto> WireCodec<P, Proto, u8> for SpiCodec where P: LedPixel, Proto: SingleWireProtocol<P> {
    type Error = SpiCodecPlanError;

    type EncodeError = Infallible;

    /// The frame's byte count must fit in a `usize`.
    open spec fn encoded_len_defined(&self, config: LedStripConfig<P, Proto>) -> bool {
        config.len() * P::BYTES_PER_PIXEL <= usize::MAX
    }

    open spec fn spec_encoded_len(&self, config: LedStripConfig<P, Proto>) -> int {
        self.spec_len_for(config)
    }

    /// The buffer and the symbol bits of the pixels fit in memory, and the
    /// encoded length is defined.
    open spec fn encode_defined(
        &self,
        config: LedStripConfig<P, Proto>,
        pixels: Seq<P>,
        capacity: int,
    ) -> bool {
        &&& capacity <= isize::MAX
        &&& pixels.len() * P::BYTES_PER_PIXEL * 8 * self.plan().bits_per_symbol() + 7 <= usize::MAX
        &&& pixels.len() == config.len() ==> self.encoded_len_defined(config)
    }

    open spec fn spec_encode(
        &self,
        config: LedStripConfig<P, Proto>,
        pixels: Seq<P>,
        capacity: int,
    ) -> Result<Seq<u8>, LedStripError<Infallible>> {
        if pixels.len() != config.len() {
            Err(LedStripError::InvalidLength { expected: config.len(), actual: pixels.len() as usize })
        } else if self.spec_len_for(config) > capacity {
            Err(
                LedStripError::BufferTooSmall {
                    required: self.spec_len_for(config) as usize,
                    capacity: capacity as usize,
                },
            )
        } else {
            Ok(self.frame_for(config, pixels))
        }
    }

    proof fn lemma_encode_len(&self, config: LedStripConfig<P, Proto>, pixels: Seq<P>, capacity: int) {
        if pixels.len() == config.len() && self.spec_len_for(config) <= capacity {
            self.lemma_frame_len(config, pixels);
        }
    }

    fn encoded_len(&self, config: &LedStripConfig<P, Proto>) -> (n: usize) {
        proof {
            use_type_invariant(self);
        }
        let bps = self.plan.bits_per_symbol;
        let frame = config.frame_len_bytes();
        let payload_bits = match frame.checked_mul(8) {
            Some(bits) => match bits.checked_mul(bps as usize) {
                Some(symbol_bits) => symbol_bits,
                None => {
                    return usize::MAX;
                },
            },
            None => {
                proof {
                    assert(frame * 8 * bps >= frame * 8) by (nonlinear_arith)
                        requires
                            bps >= 1,
                    ;
                }
                return usize::MAX;
            },
        };
        let payload_bytes = if payload_bits % 8 != 0 {
            payload_bits / 8 + 1
        } else {
            payload_bits / 8
        };
        proof {
            lemma_ceil_div_parts(payload_bits as int, 8);
        }
        payload_bytes.saturating_add(self.reset_bytes_for(config))
    }

    fn encode<const TX_CAPACITY: usize>(
        &self,
        config: &LedStripConfig<P, Proto>,
        pixels: &[P],
        out: &mut Vec<u8>,
    ) -> (r: LedStripResult<(), Infallible>)
        ensures
            r is Err ==> final(out)@ == old(out)@,
    {
        proof {
            use_type_invariant(self);
        }
        if pixels.len() != config.len() {
            return Err(LedStripError::InvalidLength { expected: config.len(), actual: pixels.len() });
        }
        let required = self.encoded_len(config);
        if required > TX_CAPACITY {
            return Err(LedStripError::BufferTooSmall { required, capacity: TX_CAPACITY });
        }
        out.clear();

        let order = config.color_order();
        let bps = self.plan.bits_per_symbol;
        let ghost zero = self.zero_pattern;
        let ghost one = self.one_pattern;
        let ghost bit_order = Proto::spec_bit_order();
        let ghost mut bits: Seq<bool> = Seq::empty();
        let mut current_byte: u8 = 0;
        let mut used_bits: u8 = 0;
        let mut pi: usize = 0;
        assert(pixels@.take(0) =~= Seq::<P>::empty());
        assert(bits.subrange(0, 0) =~= Seq::<bool>::empty());
        while pi < pixels.len()
            invariant
                self.inv(),
                bps == self.plan().bits_per_symbol(),
                1 <= bps <= 8,
                zero == self.zero_pattern(),
                one == self.one_pattern(),
                bit_order == Proto::spec_bit_order(),
                order == config.color_order(),
                pi <= pixels@.len(),
                holds_bits(out@, current_byte, used_bits, bits),
                bits == stream_bits(frame_bytes(pixels@.take(pi as int), order), bit_order, zero, one, bps),
            decreases pixels@.len() - pi,
        {
            let pixel = pixels[pi];
            let ghost wire = pixel.wire_bytes(order);
            let ghost prefix = frame_bytes(pixels@.take(pi as int), order);
            proof {
                pixel.lemma_wire_len(order);
            }
            let mut raw = [0u8; 6];
            pixel.encode(order, &mut raw);
            let mut j: usize = 0;
            assert(wire.take(0) =~= Seq::<u8>::empty());
            assert(prefix + wire.take(0) =~= prefix);
            while j < P::BYTES_PER_PIXEL
                invariant
                    self.inv(),
                    bps == self.plan().bits_per_symbol(),
                    1 <= bps <= 8,
                    zero == self.zero_pattern(),
                    one == self.one_pattern(),
                    bit_order == Proto::spec_bit_order(),
                    wire.len() == P::BYTES_PER_PIXEL <= 6,
                    raw@.take(P::BYTES_PER_PIXEL as int) == wire,
                    j <= P::BYTES_PER_PIXEL,
                    holds_bits(out@, current_byte, used_bits, bits),
                    bits == stream_bits(prefix + wire.take(j as int), bit_order, zero, one, bps),
                decreases P::BYTES_PER_PIXEL - j,
            {
                let byte = raw[j];
                assert(byte == wire[j as int]);
                let ghost before = bits;
                let mut bit_index: u8 = 0;
                while bit_index < 8
                    invariant
                        self.inv(),
                        bps == self.plan().bits_per_symbol(),
                        1 <= bps <= 8,
                        zero == self.zero_pattern(),
                        one == self.one_pattern(),
                        bit_order == Proto::spec_bit_order(),
                        bit_index <= 8,
                        holds_bits(out@, current_byte, used_bits, bits),
                        bits == before + byte_symbols(byte, bit_order, zero, one, bps, bit_index as nat),
                    decreases 8 - bit_index,
                {
                    let shift = bit_shift::<P, Proto>(bit_index);
                    let bit_is_set = ((byte >> shift) & 1) != 0;
                    let pattern = if bit_is_set {
                        self.one_pattern
                    } else {
                        self.zero_pattern
                    };
                    proof {
                        assert((((byte >> shift) & 1u8) != 0) == (((byte >> shift) & 1u8) == 1u8))
                            by (bit_vector);
                        assert(bit_is_set == data_bit(byte, bit_order, bit_index as int));
                    }
                    append_pattern(out, pattern, bps, &mut current_byte, &mut used_bits, Ghost(bits));
                    proof {
                        bits = bits + symbol_bits(pattern, bps);
                    }
                    bit_index = bit_index + 1;
                }
                proof {
                    crate::bitstream::lemma_stream_push(prefix + wire.take(j as int), byte, bit_order, zero, one, bps);
                    assert(prefix + wire.take(j + 1) =~= (prefix + wire.take(j as int)).push(byte));
                }
                j = j + 1;
            }
            proof {
                assert(wire.take(P::BYTES_PER_PIXEL as int) =~= wire);
                assert(pixels@.take(pi + 1).drop_last() =~= pixels@.take(pi as int));
                assert(pixels@.take(pi + 1).last() == pixel);
            }
            pi = pi + 1;
        }
        flush_bits(out, current_byte, used_bits, self.reset_fill != 0, Ghost(bits));
        let ghost payload = out@;
        let reset_bytes = self.reset_bytes_for(config);
        proof {
            assert(pixels@.take(pixels@.len() as int) =~= pixels@);
            self.lemma_frame_len(*config, pixels@);
        }
        let mut k: usize = 0;
        while k < reset_bytes
            invariant
                k <= reset_bytes,
                out@ == payload + Seq::new(k as nat, |i: int| self.reset_fill()),
            decreases reset_bytes - k,
        {
            out.push(self.reset_fill);
            k = k + 1;
            assert(out@ =~= payload + Seq::new(k as nat, |i: int| self.reset_fill()));
        }
        Ok(())
    }
}

impl SpiCodec {
    /// The frame for `pixels` has `spec_len_for(config)` bytes when the
    /// pixel count matches and that length did not saturate.
    proof fn lemma_frame_len<P: LedPixel, Proto: SingleWireProtocol<P>>(
        &self,
        config: LedStripConfig<P, Proto>,
        pixels: Seq<P>,
    )
        requires
            pixels.len() == config.len(),
            <SpiCodec as WireCodec<P, Proto, u8>>::encode_defined(self, config, pixels, isize::MAX as int),
            self.spec_len_for(config) <= isize::MAX,
        ensures
            self.frame_for(config, pixels).len() == self.spec_len_for(config),
    {
        let bps = self.plan().bits_per_symbol();
        let bytes = frame_bytes(pixels, config.color_order());
        crate::bitstream::lemma_frame_bytes_len(pixels, config.color_order());
        crate::bitstream::lemma_stream_len(bytes, Proto::spec_bit_order(), self.zero_pattern(), self.one_pattern(), bps);
        let bits = stream_bits(bytes, Proto::spec_bit_order(), self.zero_pattern(), self.one_pattern(), bps);
        crate::bitstream::lemma_packed_len(bits, self.inverted());
    }
}

/// Law: a frame sends the pixels in slice order, each as its wire bytes under
/// the configuration's color order. Whatever byte sequence `data` lists,
/// pixel after pixel, the wire bytes of `pixels[k]` under
/// `config.color_order()`, the frame is the symbol stream of `data` packed
/// eight bits to a byte, followed by the reset fill.
pub proof fn lemma_frame_follows_pixels<P: LedPixel, Proto: SingleWireProtocol<P>>(
    codec: SpiCodec,
    config: LedStripConfig<P, Proto>,
    pixels: Seq<P>,
    data: Seq<u8>,
)
    requires
        data.len() == pixels.len() * P::BYTES_PER_PIXEL,
        forall|k: int, j: int|
            0 <= k < pixels.len() && 0 <= j < P::BYTES_PER_PIXEL ==> data[k * P::BYTES_PER_PIXEL + j]
                == #[trigger] pixels[k].wire_bytes(config.color_order())[j],
    ensures
        codec.frame_for(config, pixels) == packed(
            stream_bits(
                data,
                Proto::spec_bit_order(),
                codec.zero_pattern(),
                codec.one_pattern(),
                codec.plan().bits_per_symbol(),
            ),
            codec.inverted(),
        ) + Seq::new(codec.spec_reset_bytes::<P, Proto>() as nat, |i: int| codec.reset_fill()),
{
    let order = config.color_order();
    let bytes = frame_bytes(pixels, order);
    let b = P::BYTES_PER_PIXEL as int;
    crate::bitstream::lemma_frame_bytes_len(pixels, order);
    assert forall|i: int| 0 <= i < bytes.len() implies bytes[i] == data[i] by {
        assert(b > 0) by {
            if pixels.len() > 0 {
                pixels[0].lemma_wire_len(order);
            }
        }
        let k = i / b;
        let j = i % b;
        vstd::arithmetic::div_mod::lemma_fundamental_div_mod(i, b);
        assert(0 <= j < b) by {
            vstd::arithmetic::div_mod::lemma_mod_bound(i, b);
        }
        assert(0 <= k < pixels.len()) by (nonlinear_arith)
            requires
                i == b * k + j,
                0 <= j < b,
                0 <= i < pixels.len() * b,
        ;
        assert(k * b + j == i) by (nonlinear_arith)
            requires
                i == b * k + j,
        ;
        crate::bitstream::lemma_frame_bytes_index(pixels, order, k, j);
        assert(data[k * b + j] == pixels[k].wire_bytes(order)[j]);
    }
    assert(bytes =~= data);
}

/// Law: what a frame sends for each data bit of each pixel. Counting the
/// frame's bits from the most significant bit of its first byte, the
/// `bits_per_symbol` bits from position
/// `((k * BYTES_PER_PIXEL + j) * 8 + i) * bits_per_symbol` on are the bits of
/// the codec's one pattern, most significant first, when logical bit `i` of
/// byte `j` of the wire bytes of `pixels[k]` under `config.color_order()` is
/// set, and of its zero pattern when it is clear (logical bit 0 is the most
/// significant bit for `MsbFirst`, the least significant for `LsbFirst`).
pub proof fn lemma_frame_bit<P: LedPixel, Proto: SingleWireProtocol<P>>(
    codec: SpiCodec,
    config: LedStripConfig<P, Proto>,
    pixels: Seq<P>,
    k: int,
    j: int,
    i: int,
    s: int,
)
    requires
        0 <= k < pixels.len(),
        0 <= j < P::BYTES_PER_PIXEL,
        0 <= i < 8,
        0 <= s < codec.plan().bits_per_symbol(),
    ensures
        ({
            let bps = codec.plan().bits_per_symbol();
            let p = ((k * P::BYTES_PER_PIXEL + j) * 8 + i) * bps + s;
            let byte = pixels[k].wire_bytes(config.color_order())[j];
            let position = match Proto::spec_bit_order() {
                BitOrder::MsbFirst => 7 - i,
                BitOrder::LsbFirst => i,
            };
            let pattern = if (byte >> (position as u8)) & 1u8 == 1u8 {
                codec.one_pattern()
            } else {
                codec.zero_pattern()
            };
            &&& p / 8 < codec.frame_for(config, pixels).len()
            &&& ((codec.frame_for(config, pixels)[p / 8] >> ((7 - p % 8) as u8)) & 1u8 == 1u8) == ((
            pattern >> ((bps - 1 - s) as u8)) & 1u8 == 1u8)
        }),
{
    let bps = codec.plan().bits_per_symbol();
    let w = bps as int;
    let order = config.color_order();
    let data = frame_bytes(pixels, order);
    let bpp = P::BYTES_PER_PIXEL as int;
    let b = k * bpp + j;
    let p = ((k * bpp + j) * 8 + i) * w + s;
    crate::bitstream::lemma_frame_bytes_len(pixels, order);
    crate::bitstream::lemma_frame_bytes_index(pixels, order, k, j);
    assert(b < data.len()) by (nonlinear_arith)
        requires
            0 <= k < pixels.len(),
            0 <= j < bpp,
            data.len() == pixels.len() * bpp,
            b == k * bpp + j,
    ;
    crate::bitstream::lemma_stream_bits_index(data, Proto::spec_bit_order(), codec.zero_pattern(), codec.one_pattern(), bps, b, i, s);
    let bits = stream_bits(data, Proto::spec_bit_order(), codec.zero_pattern(), codec.one_pattern(), bps);
    assert(p == (8 * b + i) * w + s);
    assert(0 <= p < bits.len()) by (nonlinear_arith)
        requires
            0 <= b < data.len(),
            0 <= i < 8,
            0 <= s < w,
            p == (8 * b + i) * w + s,
            bits.len() == data.len() * 8 * w,
    ;
    let payload = packed(bits, codec.inverted());
    crate::bitstream::lemma_packed_len(bits, codec.inverted());
    assert(p / 8 < payload.len());
    crate::bitstream::lemma_packed_bit(bits, codec.inverted(), p);
    let fill = Seq::new(codec.spec_reset_bytes::<P, Proto>() as nat, |x: int| codec.reset_fill());
    assert(codec.frame_for(config, pixels) == payload + fill);
    assert((payload + fill)[p / 8] == payload[p / 8]);
}

/// Law: a frame is the packed symbols of the pixels' data bits, one SPI
/// byte per eight symbol bits rounded up, followed by exactly
/// `spec_reset_bytes` bytes of the codec's reset fill.
pub proof fn lemma_frame_layout<P: LedPixel, Proto: SingleWireProtocol<P>>(
    codec: SpiCodec,
    config: LedStripConfig<P, Proto>,
    pixels: Seq<P>,
)
    ensures
        ({
            let payload = (pixels.len() * P::BYTES_PER_PIXEL * 8 * codec.plan().bits_per_symbol() + 7)
                / 8;
            let frame = codec.frame_for(config, pixels);
            &&& frame.len() == payload + codec.spec_reset_bytes::<P, Proto>()
            &&& forall|x: int| payload <= x < frame.len() ==> #[trigger] frame[x] == codec.reset_fill()
        }),
{
    let bps = codec.plan().bits_per_symbol();
    let bytes = frame_bytes(pixels, config.color_order());
    crate::bitstream::lemma_frame_bytes_len(pixels, config.color_order());
    crate::bitstream::lemma_stream_len(bytes, Proto::spec_bit_order(), codec.zero_pattern(), codec.one_pattern(), bps);
    let bits = stream_bits(bytes, Proto::spec_bit_order(), codec.zero_pattern(), codec.one_pattern(), bps);
    crate::bitstream::lemma_packed_len(bits, codec.inverted());
    assert(bits.len() == pixels.len() * P::BYTES_PER_PIXEL * 8 * bps) by (nonlinear_arith)
        requires
            bits.len() == bytes.len() * 8 * bps,
            bytes.len() == pixels.len() * P::BYTES_PER_PIXEL,
    ;
}

/// Law: a codec for an inverted output line sends, for every frame, the
/// bytewise complement of what the codec for a normal line sends with the
/// same plan (symbols, padding of the last byte, and reset fill alike), so
/// that an external inverter restores the normal waveform.
pub proof fn lemma_inverted_frame_is_complement<P: LedPixel, Proto: SingleWireProtocol<P>>(
    plan: SpiEncodingPlan,
    normal: SpiCodec,
    inverted: SpiCodec,
    config: LedStripConfig<P, Proto>,
    pixels: Seq<P>,
)
    requires
        plan_check(plan) is Ok,
        normal.is_codec_for(plan, false),
        inverted.is_codec_for(plan, true),
    ensures
        inverted.frame_for(config, pixels) == complement(normal.frame_for(config, pixels)),
{
    let bps = plan.bits_per_symbol();
    let bytes = frame_bytes(pixels, config.color_order());
    let mask = symbol_mask(bps);
    let normal_bits = stream_bits(bytes, Proto::spec_bit_order(), plan.zero_pattern(), plan.one_pattern(), bps);
    crate::bitstream::lemma_stream_bits_flip(
        bytes,
        Proto::spec_bit_order(),
        plan.zero_pattern(),
        plan.one_pattern(),
        mask,
        bps,
    );
    crate::bitstream::lemma_packed_negate(normal_bits);
    let n = normal.spec_reset_bytes::<P, Proto>() as nat;
    assert(!0u8 == 0xffu8) by (bit_vector);
    let payload = packed(normal_bits, false);
    let fill = Seq::new(n, |i: int| 0u8);
    assert(complement(payload + fill) =~= complement(payload) + Seq::new(n, |i: int| 0xffu8));
    assert(inverted.frame_for(config, pixels) =~= complement(payload) + Seq::new(n, |i: int| 0xffu8));
    assert(normal.frame_for(config, pixels) =~= payload + fill);
}

/// Law: a plan that passes the timing check has each of its four edges
/// within the protocol's tolerance: `|actual - expected| <= tolerance`.
pub proof fn lemma_timing_ok_edges_within<P: LedPixel, Proto: SingleWireProtocol<P>>(
    plan: SpiEncodingPlan,
)
    requires
        timing_check::<P, Proto>(plan) is Ok,
    ensures
        forall|edge: TimingEdge| #[trigger] edge_within::<P, Proto>(plan, edge),
{
    assert forall|edge: TimingEdge| #[trigger] edge_within::<P, Proto>(plan, edge) by {
        match edge {
            TimingEdge::ZeroHigh => {},
            TimingEdge::ZeroLow => {},
            TimingEdge::OneHigh => {},
            TimingEdge::OneLow => {},
        }
    }
}

/// Law: of two codecs that differ only in the extra reset time of their
/// plans, the one with more reset time never encodes a configuration into
/// fewer bytes.
pub proof fn lemma_extra_reset_never_shortens<P: LedPixel, Proto: SingleWireProtocol<P>>(
    shorter: SpiCodec,
    longer: SpiCodec,
    config: LedStripConfig<P, Proto>,
)
    requires
        shorter.plan().spi_hz() == longer.plan().spi_hz(),
        shorter.plan().bits_per_symbol() == longer.plan().bits_per_symbol(),
        shorter.plan().extra_reset_ns() <= longer.plan().extra_reset_ns(),
    ensures
        shorter.spec_len_for(config) <= longer.spec_len_for(config),
{
    lemma_reset_bytes_monotone(
        Proto::spec_reset_ns(),
        shorter.plan().extra_reset_ns(),
        longer.plan().extra_reset_ns(),
        shorter.plan().spi_hz(),
    );
}

/// Law: more reset time never means fewer reset fill bytes.
pub proof fn lemma_reset_bytes_monotone(reset_ns: u32, extra_a: u32, extra_b: u32, spi_hz: u32)
    requires
        extra_a <= extra_b,
    ensures
        reset_byte_count(reset_ns, extra_a, spi_hz) <= reset_byte_count(reset_ns, extra_b, spi_hz),
{
    let a = (reset_ns + extra_a) * spi_hz;
    let b = (reset_ns + extra_b) * spi_hz;
    assert(a <= b) by (nonlinear_arith)
        requires
            a == (reset_ns + extra_a) * spi_hz,
            b == (reset_ns + extra_b) * spi_hz,
            extra_a <= extra_b,
    ;
    if b <= u64::MAX {
        vstd::arithmetic::div_mod::lemma_div_is_ordered(a + 7_999_999_999, b + 7_999_999_999, 8_000_000_000);
    }
}

/// Rounding `x / d` up adds one exactly when `d` does not divide `x`.
proof fn lemma_ceil_div_parts(x: int, d: int)
    requires
        x >= 0,
        d > 0,
    ensures
        ceil_div(x, d) == x / d + (if x % d != 0 { 1int } else { 0int }),
{
    vstd::arithmetic::div_mod::lemma_fundamental_div_mod(x, d);
    let q = x / d;
    let r = x % d;
    assert(0 <= r < d) by {
        vstd::arithmetic::div_mod::lemma_mod_bound(x, d);
    }
    assert(q * d == d * q && (q + 1) * d == d * q + d) by (nonlinear_arith);
    if r == 0 {
        vstd::arithmetic::div_mod::lemma_fundamental_div_mod_converse(x + d - 1, d, q, d - 1);
    } else {
        vstd::arithmetic::div_mod::lemma_fundamental_div_mod_converse(x + d - 1, d, q + 1, r - 1);
    }
}

/// SPI transport backend: wraps an SPI peripheral that implements
/// `embedded_hal::spi::SpiBus<u8>`. The codec handles all protocol-level
/// concerns; this backend only pushes the encoded bytes over MOSI.
#[derive(Debug)]
pub struct SpiBackend<SPI> {
    spi: SPI,
}

impl<SPI> SpiBackend<SPI> {
    pub closed spec fn spec_inner(&self) -> SPI {
        self.spi
    }

    /// Wraps an SPI peripheral.
    pub fn new(spi: SPI) -> (backend: Self)
        ensures
            backend.spec_inner() == spi,
    {
        Self { spi }
    }

    /// Consumes the backend, returning the underlying SPI peripheral.
    pub fn into_inner(self) -> (spi: SPI)
        ensures
            spi == self.spec_inner(),
    {
        self.spi
    }

    /// Returns a shared reference to the SPI peripheral.
    pub fn inner(&self) -> (spi: &SPI)
        ensures
            *spi == self.spec_inner(),
    {
        &self.spi
    }

    /// Returns a mutable reference to the SPI peripheral.
    pub fn inner_mut(&mut self) -> (spi: &mut SPI)
        ensures
            *spi == old(self).spec_inner(),
            final(self).spec_inner() == *final(spi),
    {
        &mut self.spi
    }
}

#[verifier::external_type_specification]
#[verifier::external_body]
pub struct ExSpiErrorKind(embedded_hal::spi::ErrorKind);

impl<SPI> SpiBackend<SPI> {
    /// Sends `words` over the SPI bus; a bus error is reported by its kind.
    pub fn transmit(&mut self, words: &[u8]) -> Result<(), embedded_hal::spi::ErrorKind> where
        SPI: embedded_hal::spi::SpiBus<u8>,
     {
        spi_bus_write(&mut self.spi, words)
    }
}

/// Calls `embedded_hal::spi::SpiBus::write`, which writes `words` to the bus
/// (it may return before the last word has been shifted out), and turns a bus
/// error into its `embedded_hal::spi::ErrorKind`. Whether the write succeeds
/// depends on the hardware, so nothing is stated of the result.
#[verifier::external_body]
fn spi_bus_write<SPI>(spi: &mut SPI, words: &[u8]) -> Result<(), embedded_hal::spi::ErrorKind> where
    SPI: embedded_hal::spi::SpiBus<u8>,
 {
    spi.write(words).map_err(|e| embedded_hal::spi::Error::kind(&e))
}

/// Returns the mask of the `bits_per_symbol` low bits: `0xFF` for 8, otherwise
/// `(1 << n) - 1`.
fn pattern_mask(bits_per_symbol: u8) -> (mask: u8)
    requires
        bits_per_symbol <= 8,
    ensures
        mask == symbol_mask(bits_per_symbol),
{
    if bits_per_symbol == 8 {
        u8::MAX
    } else {
        assert((1u8 << bits_per_symbol) >= 1) by (bit_vector)
            requires
                bits_per_symbol < 8,
        ;
        (1u8 << bits_per_symbol) - 1
    }
}

/// The structural check of a plan.
fn validate_plan(plan: SpiEncodingPlan) -> (r: Result<(), SpiCodecPlanError>)
    ensures
        r == plan_check(plan),
{
    if plan.spi_hz == 0 {
        return Err(SpiCodecPlanError::ZeroClock);
    }
    if plan.bits_per_symbol == 0 {
        return Err(SpiCodecPlanError::ZeroBitsPerSymbol);
    }
    if plan.bits_per_symbol > 8 {
        return Err(SpiCodecPlanError::BitsPerSymbolTooWide { bits_per_symbol: plan.bits_per_symbol });
    }
    let limit = pattern_mask(plan.bits_per_symbol);
    if plan.zero_pattern > limit {
        return Err(
            SpiCodecPlanError::PatternOutOfRange {
                pattern: plan.zero_pattern,
                bits_per_symbol: plan.bits_per_symbol,
            },
        );
    }
    if plan.one_pattern > limit {
        return Err(
            SpiCodecPlanError::PatternOutOfRange {
                pattern: plan.one_pattern,
                bits_per_symbol: plan.bits_per_symbol,
            },
        );
    }
    Ok(())
}

/// The bit position within a pixel byte for logical bit `bit_index`, by the
/// protocol's `BIT_ORDER`: MSB first maps bit 0 to position 7, LSB first to
/// position 0.
fn bit_shift<P, Proto>(bit_index: u8) -> (shift: u8) where P: LedPixel, Proto: SingleWireProtocol<P>
    requires
        bit_index < 8,
    ensures
        shift == bit_position(Proto::spec_bit_order(), bit_index as int),
{
    match Proto::bit_order() {
        BitOrder::MsbFirst => 7 - bit_index,
        BitOrder::LsbFirst => bit_index,
    }
}

/// Counts the set bits from the top of the `bits_per_symbol`-bit window down
/// to the first clear bit. Meant for patterns of the form `1..10..0`; for a
/// pattern such as `0b1010` only the leading run counts.
fn leading_ones_in_symbol(pattern: u8, bits_per_symbol: u8) -> (count: u8)
    requires
        bits_per_symbol <= 8,
    ensures
        count == leading_ones(pattern, bits_per_symbol as int),
        count <= bits_per_symbol,
{
    let mut count: u8 = 0;
    let mut i: u8 = bits_per_symbol;
    while i > 0 && (pattern >> (i - 1)) & 1 == 1
        invariant
            i <= bits_per_symbol <= 8,
            count == bits_per_symbol - i,
            count + leading_ones(pattern, i as int) == leading_ones(
                pattern,
                bits_per_symbol as int,
            ),
        decreases i,
    {
        count = count + 1;
        i = i - 1;
    }
    count
}

/// Duration of `bits` SPI bits of `spi_bit_ns` nanoseconds each.
fn edge_ns(bits: u8, spi_bit_ns: u32) -> (ns: u64)
    ensures
        ns == bits * spi_bit_ns,
{
    assert(bits * spi_bit_ns <= 255 * 0xffff_ffff) by (nonlinear_arith)
        requires
            bits <= 255,
            spi_bit_ns <= 0xffff_ffff,
    ;
    (bits as u64) * (spi_bit_ns as u64)
}

/// Checks the actual duration of one edge against its nominal value; a
/// duration beyond `u32::MAX` nanoseconds is reported as `u32::MAX`.
fn check_timing(actual_ns: u64, expected_ns: u32, tolerance_ns: u32, edge: TimingEdge) -> (r: Result<
    (),
    SpiCodecPlanError,
>)
    ensures
        r == (if -(tolerance_ns as int) <= actual_ns - expected_ns <= tolerance_ns as int {
            Ok::<(), SpiCodecPlanError>(())
        } else {
            Err(
                SpiCodecPlanError::TimingOutOfTolerance {
                    edge,
                    actual_ns: saturate_u32(actual_ns as int),
                    expected_ns,
                    tolerance_ns,
                },
            )
        }),
{
    let expected = expected_ns as u64;
    let diff = if actual_ns >= expected {
        actual_ns - expected
    } else {
        expected - actual_ns
    };
    if diff > tolerance_ns as u64 {
        let reported = if actual_ns > u32::MAX as u64 {
            u32::MAX
        } else {
            actual_ns as u32
        };
        return Err(
            SpiCodecPlanError::TimingOutOfTolerance { edge, actual_ns: reported, expected_ns, tolerance_ns },
        );
    }
    Ok(())
}

/// Derives T0H/T0L/T1H/T1L from `plan` and compares them with the protocol's
/// nominal timing within the protocol's tolerance:
/// `spi_bit_ns = 10^9 / spi_hz`, `T0H = leading_ones(zero_pattern) x spi_bit_ns`,
/// `T0L = (bits_per_symbol - leading_ones(zero_pattern)) x spi_bit_ns`, and the
/// same for T1H/T1L.
fn validate_timing<P, Proto>(plan: &SpiEncodingPlan) -> (r: Result<(), SpiCodecPlanError>) where
    P: LedPixel,
    Proto: SingleWireProtocol<P>,
    requires
        plan_check(*plan) is Ok,
    ensures
        r == timing_check::<P, Proto>(*plan),
{
    // plan_check guarantees spi_hz != 0.
    let spi_bit_ns = 1_000_000_000u32 / plan.spi_hz;
    let tolerance = Proto::timing_tolerance_ns();
    let zero_high = leading_ones_in_symbol(plan.zero_pattern, plan.bits_per_symbol);
    let zero_low = plan.bits_per_symbol - zero_high;
    let one_high = leading_ones_in_symbol(plan.one_pattern, plan.bits_per_symbol);
    let one_low = plan.bits_per_symbol - one_high;
    let zero = Proto::zero();
    let one = Proto::one();

    check_timing(edge_ns(zero_high, spi_bit_ns), zero.high_ns, tolerance, TimingEdge::ZeroHigh)?;
    check_timing(edge_ns(zero_low, spi_bit_ns), zero.low_ns, tolerance, TimingEdge::ZeroLow)?;
    check_timing(edge_ns(one_high, spi_bit_ns), one.high_ns, tolerance, TimingEdge::OneHigh)?;
    check_timing(edge_ns(one_low, spi_bit_ns), one.low_ns, tolerance, TimingEdge::OneLow)?;
    Ok(())
}

} // verus!

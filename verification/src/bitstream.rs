//! The SPI symbol stream: how pixel bytes become SPI bits, and how a stream of
//! bits is packed into bytes, most significant bit first.
use vstd::prelude::*;

use crate::pixel::LedPixel;
use crate::protocol::BitOrder;

verus! {

/// The `bits_per_symbol`-bit window of `pattern`, most significant bit first:
/// entry `k` is bit `bits_per_symbol - 1 - k` of `pattern`.
pub open spec fn symbol_bits(pattern: u8, bits_per_symbol: u8) -> Seq<bool> {
    Seq::new(
        bits_per_symbol as nat,
        |k: int| (pattern >> ((bits_per_symbol - 1 - k) as u8)) & 1u8 == 1u8,
    )
}

/// The bit position inside a byte that carries logical bit `i` (`0 <= i < 8`).
pub open spec fn bit_position(order: BitOrder, i: int) -> int {
    match order {
        BitOrder::MsbFirst => 7 - i,
        BitOrder::LsbFirst => i,
    }
}

/// Logical bit `i` of `byte` under `order`: bit 0 is the first one sent.
pub open spec fn data_bit(byte: u8, order: BitOrder, i: int) -> bool {
    (byte >> (bit_position(order, i) as u8)) & 1u8 == 1u8
}

/// The symbols for the first `count` logical bits of `byte`: each set bit is
/// sent as `one`, each clear bit as `zero`.
pub open spec fn byte_symbols(
    byte: u8,
    order: BitOrder,
    zero: u8,
    one: u8,
    bits_per_symbol: u8,
    count: nat,
) -> Seq<bool>
    decreases count,
{
    if count == 0 {
        Seq::empty()
    } else {
        let pattern = if data_bit(byte, order, count - 1) {
            one
        } else {
            zero
        };
        byte_symbols(byte, order, zero, one, bits_per_symbol, (count - 1) as nat) + symbol_bits(
            pattern,
            bits_per_symbol,
        )
    }
}

/// The SPI bit stream for a sequence of data bytes: the symbols of all eight
/// bits of each byte, byte after byte.
pub open spec fn stream_bits(
    bytes: Seq<u8>,
    order: BitOrder,
    zero: u8,
    one: u8,
    bits_per_symbol: u8,
) -> Seq<bool>
    decreases bytes.len(),
{
    if bytes.len() == 0 {
        Seq::empty()
    } else {
        stream_bits(bytes.drop_last(), order, zero, one, bits_per_symbol) + byte_symbols(
            bytes.last(),
            order,
            zero,
            one,
            bits_per_symbol,
            8,
        )
    }
}

/// The wire bytes of a sequence of pixels, pixel after pixel.
pub open spec fn frame_bytes<P: LedPixel>(pixels: Seq<P>, order: P::Order) -> Seq<u8>
    decreases pixels.len(),
{
    if pixels.len() == 0 {
        Seq::empty()
    } else {
        frame_bytes(pixels.drop_last(), order) + pixels.last().wire_bytes(order)
    }
}

/// The byte whose leading bits are `bits` (at most eight), most significant
/// first, with every bit after them clear.
pub open spec fn byte_from_bits(bits: Seq<bool>) -> u8
    decreases bits.len(),
{
    if bits.len() == 0 {
        0u8
    } else {
        byte_from_bits(bits.drop_last()) | (if bits.last() {
            1u8 << ((8 - bits.len()) as u8)
        } else {
            0u8
        })
    }
}

/// Mask of the `8 - used` low bits of a byte whose `used` leading bits hold
/// data.
pub open spec fn tail_mask(used: int) -> u8 {
    0xffu8 >> (used as u8)
}

/// Byte `j` of `bits` packed eight to a byte. A last, partial byte has its
/// unused low bits set when `pad_high` holds and clear otherwise.
pub open spec fn packed_byte(bits: Seq<bool>, j: int, pad_high: bool) -> u8 {
    if 8 * j + 8 <= bits.len() {
        byte_from_bits(bits.subrange(8 * j, 8 * j + 8))
    } else {
        let rest = bits.len() - 8 * j;
        byte_from_bits(bits.subrange(8 * j, bits.len() as int)) | (if pad_high {
            tail_mask(rest)
        } else {
            0u8
        })
    }
}

/// `bits` packed eight to a byte, most significant bit first.
pub open spec fn packed(bits: Seq<bool>, pad_high: bool) -> Seq<u8> {
    Seq::new(((bits.len() + 7) / 8) as nat, |j: int| packed_byte(bits, j, pad_high))
}

/// A byte contributes `8 * bits_per_symbol` bits per eight data bits.
pub proof fn lemma_byte_symbols_len(
    byte: u8,
    order: BitOrder,
    zero: u8,
    one: u8,
    bits_per_symbol: u8,
    count: nat,
)
    ensures
        byte_symbols(byte, order, zero, one, bits_per_symbol, count).len() == count
            * bits_per_symbol,
    decreases count,
{
    if count > 0 {
        lemma_byte_symbols_len(byte, order, zero, one, bits_per_symbol, (count - 1) as nat);
        let c = count as int;
        let b = bits_per_symbol as int;
        assert((c - 1) * b + b == c * b) by (nonlinear_arith);
        assert(symbol_bits(zero, bits_per_symbol).len() == b);
        assert(symbol_bits(one, bits_per_symbol).len() == b);
    } else {
        assert(0 * (bits_per_symbol as int) == 0) by (nonlinear_arith);
    }
}

/// The stream of `n` data bytes has `n * 8 * bits_per_symbol` bits.
pub proof fn lemma_stream_len(bytes: Seq<u8>, order: BitOrder, zero: u8, one: u8, bits_per_symbol: u8)
    ensures
        stream_bits(bytes, order, zero, one, bits_per_symbol).len() == bytes.len() * 8
            * bits_per_symbol,
    decreases bytes.len(),
{
    if bytes.len() > 0 {
        lemma_stream_len(bytes.drop_last(), order, zero, one, bits_per_symbol);
        lemma_byte_symbols_len(bytes.last(), order, zero, one, bits_per_symbol, 8);
        let n = bytes.len() as int;
        let b = bits_per_symbol as int;
        assert((n - 1) * 8 * b + 8 * b == n * 8 * b) by (nonlinear_arith);
    } else {
        assert(0 * 8 * (bits_per_symbol as int) == 0) by (nonlinear_arith);
    }
}

/// The stream of `prefix` followed by `byte` is the stream of `prefix`
/// followed by the symbols of `byte`.
pub proof fn lemma_stream_push(
    prefix: Seq<u8>,
    byte: u8,
    order: BitOrder,
    zero: u8,
    one: u8,
    bits_per_symbol: u8,
)
    ensures
        stream_bits(prefix.push(byte), order, zero, one, bits_per_symbol) == stream_bits(
            prefix,
            order,
            zero,
            one,
            bits_per_symbol,
        ) + byte_symbols(byte, order, zero, one, bits_per_symbol, 8),
{
    assert(prefix.push(byte).drop_last() =~= prefix);
}

/// The wire bytes of `n` pixels number `n * BYTES_PER_PIXEL`.
pub proof fn lemma_frame_bytes_len<P: LedPixel>(pixels: Seq<P>, order: P::Order)
    ensures
        frame_bytes(pixels, order).len() == pixels.len() * P::BYTES_PER_PIXEL,
    decreases pixels.len(),
{
    if pixels.len() > 0 {
        lemma_frame_bytes_len(pixels.drop_last(), order);
        pixels.last().lemma_wire_len(order);
        let n = pixels.len() as int;
        let b = P::BYTES_PER_PIXEL as int;
        assert((n - 1) * b + b == n * b) by (nonlinear_arith);
    }
}

/// Law: the wire bytes of a sequence of pixels list the pixels in order,
/// each as its own wire bytes: byte `j` of pixel `k` is byte
/// `k * BYTES_PER_PIXEL + j` of the whole.
pub proof fn lemma_frame_bytes_index<P: LedPixel>(pixels: Seq<P>, order: P::Order, k: int, j: int)
    requires
        0 <= k < pixels.len(),
        0 <= j < P::BYTES_PER_PIXEL,
    ensures
        frame_bytes(pixels, order)[k * P::BYTES_PER_PIXEL + j] == pixels[k].wire_bytes(order)[j],
    decreases pixels.len(),
{
    let n = pixels.len() as int;
    let b = P::BYTES_PER_PIXEL as int;
    let prev = pixels.drop_last();
    lemma_frame_bytes_len(prev, order);
    pixels.last().lemma_wire_len(order);
    if k < n - 1 {
        lemma_frame_bytes_index(prev, order, k, j);
        assert(k * b + j < (n - 1) * b) by (nonlinear_arith)
            requires
                0 <= k < n - 1,
                0 <= j < b,
        ;
        assert(prev[k] == pixels[k]);
    } else {
        assert(k * b + j == (n - 1) * b + j);
    }
}

/// `packed` has one byte per eight bits, rounded up.
pub proof fn lemma_packed_len(bits: Seq<bool>, pad_high: bool)
    ensures
        packed(bits, pad_high).len() == (bits.len() + 7) / 8,
{
}

/// Every bit of `bits` flipped.
pub open spec fn negate(bits: Seq<bool>) -> Seq<bool> {
    bits.map_values(|b: bool| !b)
}

/// Every byte of `bytes` complemented.
pub open spec fn complement(bytes: Seq<u8>) -> Seq<u8> {
    bytes.map_values(|b: u8| !b)
}

proof fn lemma_bv_step_set(a: u8, b: u8, k: u8)
    by (bit_vector)
    requires
        1 <= k <= 8,
        a & (0xffu8 >> ((k - 1) as u8)) == 0,
        b & (0xffu8 >> ((k - 1) as u8)) == 0,
        b | (0xffu8 >> ((k - 1) as u8)) == !a,
    ensures
        (a | (1u8 << ((8 - k) as u8))) & (0xffu8 >> k) == 0,
        b & (0xffu8 >> k) == 0,
        b | (0xffu8 >> k) == !(a | (1u8 << ((8 - k) as u8))),
{
}

proof fn lemma_bv_step_clear(a: u8, b: u8, k: u8)
    by (bit_vector)
    requires
        1 <= k <= 8,
        a & (0xffu8 >> ((k - 1) as u8)) == 0,
        b & (0xffu8 >> ((k - 1) as u8)) == 0,
        b | (0xffu8 >> ((k - 1) as u8)) == !a,
    ensures
        a & (0xffu8 >> k) == 0,
        (b | (1u8 << ((8 - k) as u8))) & (0xffu8 >> k) == 0,
        (b | (1u8 << ((8 - k) as u8))) | (0xffu8 >> k) == !a,
{
}

/// The bits after the leading `bits.len()` bits of `byte_from_bits(bits)`
/// are clear, and flipping the bits complements the leading part while the
/// rest is filled by `tail_mask`.
proof fn lemma_byte_from_negated_bits(bits: Seq<bool>)
    requires
        bits.len() <= 8,
    ensures
        byte_from_bits(bits) & tail_mask(bits.len() as int) == 0,
        byte_from_bits(negate(bits)) & tail_mask(bits.len() as int) == 0,
        byte_from_bits(negate(bits)) | tail_mask(bits.len() as int) == !byte_from_bits(bits),
    decreases bits.len(),
{
    let n = bits.len();
    if n == 0 {
        assert(negate(bits) =~= Seq::<bool>::empty());
        assert(0u8 & (0xffu8 >> 0u8) == 0u8 && (0u8 | (0xffu8 >> 0u8)) == !0u8) by (bit_vector);
    } else {
        let prev = bits.drop_last();
        lemma_byte_from_negated_bits(prev);
        assert(negate(bits).drop_last() =~= negate(prev));
        assert(negate(bits).last() == !bits.last());
        let a = byte_from_bits(prev);
        let b = byte_from_bits(negate(prev));
        let k = n as u8;
        let x = bits.last();
        assert(tail_mask(n - 1) == 0xffu8 >> ((k - 1) as u8));
        assert(tail_mask(n as int) == 0xffu8 >> k);
        assert(((8 - n) as u8) == ((8 - k) as u8));
        if x {
            lemma_bv_step_set(a, b, k);
            assert(a | 0u8 == a && b | 0u8 == b) by (bit_vector);
        } else {
            lemma_bv_step_clear(a, b, k);
            assert(a | 0u8 == a && b | 0u8 == b) by (bit_vector);
        }
    }
}

/// With the idle level flipped, flipping every bit of the stream complements
/// every packed byte.
pub proof fn lemma_packed_negate(bits: Seq<bool>)
    ensures
        packed(negate(bits), true) == complement(packed(bits, false)),
{
    let nb = negate(bits);
    assert forall|j: int| 0 <= j < packed(bits, false).len() implies #[trigger] packed(
        nb,
        true,
    )[j] == !packed(bits, false)[j] by {
        if 8 * j + 8 <= bits.len() {
            let sub = bits.subrange(8 * j, 8 * j + 8);
            assert(nb.subrange(8 * j, 8 * j + 8) =~= negate(sub));
            lemma_byte_from_negated_bits(sub);
            let v = byte_from_bits(negate(sub));
            assert(v | 0u8 == v) by (bit_vector);
            assert(0xffu8 >> 8u8 == 0u8) by (bit_vector);
            assert(tail_mask(8) == 0xffu8 >> 8u8);
        } else {
            let sub = bits.subrange(8 * j, bits.len() as int);
            assert(nb.subrange(8 * j, nb.len() as int) =~= negate(sub));
            lemma_byte_from_negated_bits(sub);
            let v = byte_from_bits(sub);
            assert(v | 0u8 == v) by (bit_vector);
        }
    }
    assert(packed(nb, true) =~= complement(packed(bits, false)));
}

proof fn lemma_bv_flip(p: u8, m: u8, s: u8)
    by (bit_vector)
    requires
        s < 8,
        (m >> s) & 1u8 == 1u8,
    ensures
        (((!p & m) >> s) & 1u8 == 1u8) == !((p >> s) & 1u8 == 1u8),
{
}

proof fn lemma_bv_low_mask_bit(b: u8, s: u8)
    by (bit_vector)
    requires
        s < b,
        b < 8,
    ensures
        ((((1u8 << b) - 1) as u8) >> s) & 1u8 == 1u8,
{
}

proof fn lemma_bv_full_mask_bit(s: u8)
    by (bit_vector)
    requires
        s < 8,
    ensures
        (0xffu8 >> s) & 1u8 == 1u8,
{
}

/// Complementing a pattern within the low-`bits_per_symbol` window flips every
/// bit of its symbol.
pub proof fn lemma_symbol_bits_flip(pattern: u8, mask: u8, bits_per_symbol: u8)
    requires
        1 <= bits_per_symbol <= 8,
        mask == (if bits_per_symbol >= 8 {
            0xffu8
        } else {
            ((1u8 << bits_per_symbol) - 1) as u8
        }),
    ensures
        symbol_bits((!pattern) & mask, bits_per_symbol) == negate(symbol_bits(pattern, bits_per_symbol)),
{
    assert forall|k: int| 0 <= k < bits_per_symbol implies #[trigger] symbol_bits(
        (!pattern) & mask,
        bits_per_symbol,
    )[k] == negate(symbol_bits(pattern, bits_per_symbol))[k] by {
        let s = (bits_per_symbol - 1 - k) as u8;
        if bits_per_symbol >= 8 {
            lemma_bv_full_mask_bit(s);
        } else {
            lemma_bv_low_mask_bit(bits_per_symbol, s);
        }
        lemma_bv_flip(pattern, mask, s);
    }
    assert(symbol_bits((!pattern) & mask, bits_per_symbol) =~= negate(
        symbol_bits(pattern, bits_per_symbol),
    ));
}

/// Sending complemented symbols flips every bit of a byte's symbols.
proof fn lemma_byte_symbols_flip(
    byte: u8,
    order: BitOrder,
    zero: u8,
    one: u8,
    mask: u8,
    bits_per_symbol: u8,
    count: nat,
)
    requires
        1 <= bits_per_symbol <= 8,
        mask == (if bits_per_symbol >= 8 {
            0xffu8
        } else {
            ((1u8 << bits_per_symbol) - 1) as u8
        }),
    ensures
        byte_symbols(byte, order, (!zero) & mask, (!one) & mask, bits_per_symbol, count) == negate(
            byte_symbols(byte, order, zero, one, bits_per_symbol, count),
        ),
    decreases count,
{
    if count == 0 {
        assert(negate(Seq::<bool>::empty()) =~= Seq::<bool>::empty());
    } else {
        lemma_byte_symbols_flip(byte, order, zero, one, mask, bits_per_symbol, (count - 1) as nat);
        lemma_symbol_bits_flip(zero, mask, bits_per_symbol);
        lemma_symbol_bits_flip(one, mask, bits_per_symbol);
        let prev = byte_symbols(byte, order, zero, one, bits_per_symbol, (count - 1) as nat);
        let pattern = if data_bit(byte, order, count - 1) {
            one
        } else {
            zero
        };
        assert(negate(prev + symbol_bits(pattern, bits_per_symbol)) =~= negate(prev) + negate(
            symbol_bits(pattern, bits_per_symbol),
        ));
    }
}

/// Sending complemented symbols flips every bit of the stream.
pub proof fn lemma_stream_bits_flip(
    bytes: Seq<u8>,
    order: BitOrder,
    zero: u8,
    one: u8,
    mask: u8,
    bits_per_symbol: u8,
)
    requires
        1 <= bits_per_symbol <= 8,
        mask == (if bits_per_symbol >= 8 {
            0xffu8
        } else {
            ((1u8 << bits_per_symbol) - 1) as u8
        }),
    ensures
        stream_bits(bytes, order, (!zero) & mask, (!one) & mask, bits_per_symbol) == negate(
            stream_bits(bytes, order, zero, one, bits_per_symbol),
        ),
    decreases bytes.len(),
{
    if bytes.len() == 0 {
        assert(negate(Seq::<bool>::empty()) =~= Seq::<bool>::empty());
    } else {
        lemma_stream_bits_flip(bytes.drop_last(), order, zero, one, mask, bits_per_symbol);
        lemma_byte_symbols_flip(bytes.last(), order, zero, one, mask, bits_per_symbol, 8);
        let prev = stream_bits(bytes.drop_last(), order, zero, one, bits_per_symbol);
        let last = byte_symbols(bytes.last(), order, zero, one, bits_per_symbol, 8);
        assert(negate(prev + last) =~= negate(prev) + negate(last));
    }
}

/// The symbol bits that `byte_symbols` gives for logical bit `i` of `byte`.
proof fn lemma_byte_symbols_index(
    byte: u8,
    order: BitOrder,
    zero: u8,
    one: u8,
    bits_per_symbol: u8,
    count: nat,
    i: int,
    s: int,
)
    requires
        0 <= i < count,
        0 <= s < bits_per_symbol,
    ensures
        byte_symbols(byte, order, zero, one, bits_per_symbol, count)[i * bits_per_symbol + s]
            == symbol_bits(
            if data_bit(byte, order, i) {
                one
            } else {
                zero
            },
            bits_per_symbol,
        )[s],
    decreases count,
{
    let c = count as int;
    let w = bits_per_symbol as int;
    lemma_byte_symbols_len(byte, order, zero, one, bits_per_symbol, (count - 1) as nat);
    if i < c - 1 {
        lemma_byte_symbols_index(byte, order, zero, one, bits_per_symbol, (count - 1) as nat, i, s);
        assert(i * w + s < (c - 1) * w) by (nonlinear_arith)
            requires
                0 <= i < c - 1,
                0 <= s < w,
        ;
    } else {
        assert(i * w + s == (c - 1) * w + s);
    }
}

/// Law: the SPI stream of `bytes` sends, for logical bit `i` of byte `b`
/// (logical bit 0 is the most significant bit for `MsbFirst`, the least
/// significant for `LsbFirst`), the `bits_per_symbol` bits of `one` when
/// that bit is set and of `zero` when it is clear, most significant bit
/// first, at positions `(8 * b + i) * bits_per_symbol` onward.
pub proof fn lemma_stream_bits_index(
    bytes: Seq<u8>,
    order: BitOrder,
    zero: u8,
    one: u8,
    bits_per_symbol: u8,
    b: int,
    i: int,
    s: int,
)
    requires
        0 <= b < bytes.len(),
        0 <= i < 8,
        0 <= s < bits_per_symbol,
    ensures
        stream_bits(bytes, order, zero, one, bits_per_symbol).len() == bytes.len() * 8
            * bits_per_symbol,
        stream_bits(bytes, order, zero, one, bits_per_symbol)[(8 * b + i) * bits_per_symbol + s]
            == ({
            let position = match order {
                BitOrder::MsbFirst => 7 - i,
                BitOrder::LsbFirst => i,
            };
            let pattern = if (bytes[b] >> (position as u8)) & 1u8 == 1u8 {
                one
            } else {
                zero
            };
            (pattern >> ((bits_per_symbol - 1 - s) as u8)) & 1u8 == 1u8
        }),
    decreases bytes.len(),
{
    let n = bytes.len() as int;
    let w = bits_per_symbol as int;
    let prev = bytes.drop_last();
    lemma_stream_len(bytes, order, zero, one, bits_per_symbol);
    lemma_stream_len(prev, order, zero, one, bits_per_symbol);
    if b < n - 1 {
        lemma_stream_bits_index(prev, order, zero, one, bits_per_symbol, b, i, s);
        assert((8 * b + i) * w + s < (n - 1) * 8 * w) by (nonlinear_arith)
            requires
                0 <= b < n - 1,
                0 <= i < 8,
                0 <= s < w,
        ;
        assert(prev[b] == bytes[b]);
    } else {
        lemma_byte_symbols_index(bytes.last(), order, zero, one, bits_per_symbol, 8, i, s);
        lemma_byte_symbols_len(bytes.last(), order, zero, one, bits_per_symbol, 8);
        assert((8 * b + i) * w + s == (n - 1) * 8 * w + (i * w + s)) by (nonlinear_arith)
            requires
                b == n - 1,
        ;
        assert(0 <= i * w + s < 8 * w) by (nonlinear_arith)
            requires
                0 <= i < 8,
                0 <= s < w,
        ;
        let head = stream_bits(prev, order, zero, one, bits_per_symbol);
        let tail = byte_symbols(bytes.last(), order, zero, one, bits_per_symbol, 8);
        assert(stream_bits(bytes, order, zero, one, bits_per_symbol) == head + tail);
        assert((head + tail)[(8 * b + i) * w + s] == tail[i * w + s]);
        let pattern = if data_bit(bytes.last(), order, i) {
            one
        } else {
            zero
        };
        assert(symbol_bits(pattern, bits_per_symbol)[s] == ((pattern >> ((bits_per_symbol - 1 - s) as u8)) & 1u8 == 1u8));
    }
}

proof fn lemma_bv_or_bit(a: u8, c: u8, k: u8)
    by (bit_vector)
    requires
        k < 8,
    ensures
        (((a | c) >> k) & 1u8 == 1u8) == (((a >> k) & 1u8 == 1u8) || ((c >> k) & 1u8 == 1u8)),
{
}

proof fn lemma_bv_single_bit(t: u8, k: u8)
    by (bit_vector)
    requires
        t < 8,
        k < 8,
    ensures
        (((1u8 << t) >> k) & 1u8 == 1u8) == (t == k),
        (0u8 >> k) & 1u8 == 0u8,
{
}

proof fn lemma_bv_tail_bit(r: u8, k: u8)
    by (bit_vector)
    requires
        r <= 8,
        k < 8,
    ensures
        (((0xffu8 >> r) >> k) & 1u8 == 1u8) == (k + r < 8),
{
}

/// Bit `7 - m` of `byte_from_bits(bits)` is `bits[m]` for `m < bits.len()`,
/// and clear below.
proof fn lemma_byte_from_bits_bit(bits: Seq<bool>, m: int)
    requires
        bits.len() <= 8,
        0 <= m < 8,
    ensures
        ((byte_from_bits(bits) >> ((7 - m) as u8)) & 1u8 == 1u8) == (m < bits.len() && bits[m]),
    decreases bits.len(),
{
    let k = (7 - m) as u8;
    if bits.len() == 0 {
        lemma_bv_single_bit(0, k);
    } else {
        let n = bits.len() as int;
        let prev = bits.drop_last();
        lemma_byte_from_bits_bit(prev, m);
        let a = byte_from_bits(prev);
        let t = (8 - n) as u8;
        let c = if bits.last() {
            1u8 << t
        } else {
            0u8
        };
        assert(byte_from_bits(bits) == a | c);
        lemma_bv_or_bit(a, c, k);
        lemma_bv_single_bit(t, k);
        if m < n - 1 {
            assert(prev[m] == bits[m]);
        }
    }
}

/// Law: `packed` keeps every bit in place, most significant bit first:
/// bit `p` of the stream is bit `7 - p % 8` of byte `p / 8`. The bits that
/// fill up a last, partial byte are set exactly when `pad_high` holds.
pub proof fn lemma_packed_bit(bits: Seq<bool>, pad_high: bool, p: int)
    requires
        0 <= p < 8 * packed(bits, pad_high).len(),
    ensures
        ((packed(bits, pad_high)[p / 8] >> ((7 - p % 8) as u8)) & 1u8 == 1u8) == if p
            < bits.len() {
            bits[p]
        } else {
            pad_high
        },
{
    let j = p / 8;
    let m = p % 8;
    let k = (7 - m) as u8;
    assert(8 * j + m == p && 0 <= m < 8);
    assert(0 <= j < packed(bits, pad_high).len());
    if 8 * j + 8 <= bits.len() {
        let sub = bits.subrange(8 * j, 8 * j + 8);
        lemma_byte_from_bits_bit(sub, m);
    } else {
        let rest = bits.len() - 8 * j;
        let sub = bits.subrange(8 * j, bits.len() as int);
        lemma_byte_from_bits_bit(sub, m);
        let a = byte_from_bits(sub);
        let c = if pad_high {
            tail_mask(rest)
        } else {
            0u8
        };
        assert(packed(bits, pad_high)[j] == a | c);
        lemma_bv_or_bit(a, c, k);
        lemma_bv_tail_bit(rest as u8, k);
        lemma_bv_single_bit(0, k);
        assert(tail_mask(rest) == 0xffu8 >> (rest as u8));
    }
}

/// The state of the packing kernel: `out` holds the complete bytes of `bits`
/// and `current` holds its last `used` bits.
pub open spec fn holds_bits(out: Seq<u8>, current: u8, used: u8, bits: Seq<bool>) -> bool {
    &&& used < 8
    &&& bits.len() == 8 * out.len() + used
    &&& forall|j: int|
        0 <= j < out.len() ==> #[trigger] out[j] == byte_from_bits(bits.subrange(8 * j, 8 * j + 8))
    &&& current == byte_from_bits(bits.subrange(8 * out.len() as int, bits.len() as int))
}

proof fn lemma_holds_bits_push(
    out: Seq<u8>,
    current: u8,
    used: u8,
    bits: Seq<bool>,
    bit: bool,
    new_current: u8,
)
    requires
        holds_bits(out, current, used, bits),
        new_current == (current | (if bit {
            1u8 << ((7 - used) as u8)
        } else {
            0u8
        })),
    ensures
        used + 1 < 8 ==> holds_bits(out, new_current, (used + 1) as u8, bits.push(bit)),
        used + 1 == 8 ==> holds_bits(out.push(new_current), 0, 0, bits.push(bit)),
{
    let nb = bits.push(bit);
    let start = 8 * out.len() as int;
    let tail = bits.subrange(start, bits.len() as int);
    let new_tail = nb.subrange(start, nb.len() as int);
    assert(new_tail.drop_last() =~= tail);
    assert(new_tail.last() == bit);
    assert(new_tail.len() == used + 1);
    assert(byte_from_bits(new_tail) == new_current);
    if used + 1 == 8 {
        let no = out.push(new_current);
        assert(nb.subrange(8 * no.len() as int, nb.len() as int) =~= Seq::<bool>::empty());
        assert forall|j: int| 0 <= j < no.len() implies #[trigger] no[j] == byte_from_bits(
            nb.subrange(8 * j, 8 * j + 8),
        ) by {
            if j < out.len() {
                assert(nb.subrange(8 * j, 8 * j + 8) =~= bits.subrange(8 * j, 8 * j + 8));
            } else {
                assert(nb.subrange(8 * j, 8 * j + 8) =~= new_tail);
            }
        }
    } else {
        assert forall|j: int| 0 <= j < out.len() implies #[trigger] out[j] == byte_from_bits(
            nb.subrange(8 * j, 8 * j + 8),
        ) by {
            assert(nb.subrange(8 * j, 8 * j + 8) =~= bits.subrange(8 * j, 8 * j + 8));
        }
    }
}

/// Appends the `bits_per_symbol`-bit window of `pattern` (most significant
/// bit first) to the stream kept in `out`, `current_byte` and `used_bits`.
/// Bits fill `current_byte` from its most significant bit down; a full byte
/// is pushed to `out` and a new one started.
pub(crate) fn append_pattern(
    out: &mut Vec<u8>,
    pattern: u8,
    bits_per_symbol: u8,
    current_byte: &mut u8,
    used_bits: &mut u8,
    Ghost(bits): Ghost<Seq<bool>>,
)
    requires
        bits_per_symbol <= 8,
        holds_bits(old(out)@, *old(current_byte), *old(used_bits), bits),
    ensures
        holds_bits(
            final(out)@,
            *final(current_byte),
            *final(used_bits),
            bits + symbol_bits(pattern, bits_per_symbol),
        ),
        old(out)@.len() <= final(out)@.len() <= old(out)@.len() + 1,
{
    let ghost mut done: Seq<bool> = bits;
    let ghost start_len = out@.len();
    let mut shift: u8 = bits_per_symbol;
    while shift > 0
        invariant
            0 <= shift <= bits_per_symbol <= 8,
            holds_bits(out@, *current_byte, *used_bits, done),
            done == bits + symbol_bits(pattern, bits_per_symbol).take(
                (bits_per_symbol - shift) as int,
            ),
            8 * start_len <= bits.len() < 8 * start_len + 8,
            start_len <= out@.len(),
        decreases shift,
    {
        shift = shift - 1;
        let bit = ((pattern >> shift) & 1u8) != 0;
        let ghost old_out = out@;
        let ghost old_cur = *current_byte;
        let ghost old_used = *used_bits;
        let used = *used_bits;
        let mask: u8 = if bit {
            1u8 << (7 - used)
        } else {
            0u8
        };
        *current_byte = *current_byte | mask;
        proof {
            lemma_holds_bits_push(old_out, old_cur, old_used, done, bit, *current_byte);
            let k = (bits_per_symbol - 1 - shift) as int;
            assert(((bits_per_symbol - 1 - k) as u8) == shift);
            assert((((pattern >> shift) & 1u8) != 0) == (((pattern >> shift) & 1u8) == 1u8))
                by (bit_vector);
            assert(symbol_bits(pattern, bits_per_symbol).take(k + 1) =~= symbol_bits(
                pattern,
                bits_per_symbol,
            ).take(k).push(bit));
            done = done.push(bit);
        }
        *used_bits = *used_bits + 1;
        if *used_bits == 8 {
            out.push(*current_byte);
            *current_byte = 0;
            *used_bits = 0;
        }
    }
    assert(out@.len() <= start_len + 1);
    assert(symbol_bits(pattern, bits_per_symbol).take(bits_per_symbol as int) =~= symbol_bits(
        pattern,
        bits_per_symbol,
    ));
}

/// Completes the stream: a partial last byte has its unused low bits set when
/// `pad_high` holds, and is pushed to `out`.
pub(crate) fn flush_bits(
    out: &mut Vec<u8>,
    current_byte: u8,
    used_bits: u8,
    pad_high: bool,
    Ghost(bits): Ghost<Seq<bool>>,
)
    requires
        holds_bits(old(out)@, current_byte, used_bits, bits),
    ensures
        final(out)@ == packed(bits, pad_high),
{
    let ghost full = out@;
    if used_bits != 0 {
        let byte = if pad_high {
            current_byte | (0xffu8 >> used_bits)
        } else {
            current_byte
        };
        out.push(byte);
    }
    assert(packed(bits, pad_high).len() == out@.len());
    assert forall|j: int| 0 <= j < out@.len() implies #[trigger] out@[j] == packed(
        bits,
        pad_high,
    )[j] by {
        if j < full.len() {
            assert(8 * j + 8 <= bits.len());
            assert(out@[j] == full[j]);
        } else {
            assert(j == full.len());
            assert(8 * j + 8 > bits.len());
            assert(bits.subrange(8 * j, bits.len() as int) == bits.subrange(
                8 * full.len() as int,
                bits.len() as int,
            ));
            assert(bits.len() - 8 * j == used_bits);
            assert(tail_mask(used_bits as int) == 0xffu8 >> used_bits);
            assert(current_byte | 0u8 == current_byte) by (bit_vector);
        }
    }
    assert(out@ =~= packed(bits, pad_high));
}

} // verus!

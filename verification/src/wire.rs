//! Fixed-width integer layouts shared by all the codecs.

use vstd::prelude::*;
use vstd::utf8::{decode_utf8, valid_utf8};

verus! {

/// Why a decoder produced no value.
#[derive(Debug, Clone, Copy, PartialEq, Eq, Structural)]
pub enum DecodeError {
    /// The input ended before the value was complete.
    UnexpectedEof,
    /// Bytes that should hold text are not valid UTF-8.
    InvalidUtf8,
}

/// `256` to the power `width`: the number of values that fit in `width` bytes.
pub open spec fn radix(width: nat) -> nat
    decreases width,
{
    if width == 0 {
        1
    } else {
        256 * radix((width - 1) as nat)
    }
}

/// The `width` low-order bytes of `value`, least significant first.
pub open spec fn le_bytes(value: nat, width: nat) -> Seq<u8>
    decreases width,
{
    if width == 0 {
        Seq::empty()
    } else {
        seq![(value % 256) as u8] + le_bytes(value / 256, (width - 1) as nat)
    }
}

/// The number whose little-endian digits are `bytes`.
pub open spec fn le_value(bytes: Seq<u8>) -> nat
    decreases bytes.len(),
{
    if bytes.len() == 0 {
        0
    } else {
        bytes[0] as nat + 256 * le_value(bytes.drop_first())
    }
}

/// The two bytes of `value`, most significant first (network byte order).
pub open spec fn be_bytes16(value: u16) -> Seq<u8> {
    seq![(value / 256) as u8, (value % 256) as u8]
}

/// The number whose two big-endian digits are `bytes`.
pub open spec fn be_value16(bytes: Seq<u8>) -> u16
    recommends
        bytes.len() == 2,
{
    (bytes[0] as nat * 256 + bytes[1] as nat) as u16
}

/// The unsigned number with the same 32-bit two's complement pattern.
pub open spec fn bits_of_i32(value: i32) -> u32 {
    if value >= 0 {
        value as u32
    } else {
        (value + 0x1_0000_0000) as u32
    }
}

/// The signed number with the same 32-bit two's complement pattern.
pub open spec fn i32_of_bits(bits: u32) -> i32 {
    if bits < 0x8000_0000 {
        bits as i32
    } else {
        (bits - 0x1_0000_0000) as i32
    }
}

/// The unsigned number with the same 64-bit two's complement pattern.
pub open spec fn bits_of_i64(value: i64) -> u64 {
    if value >= 0 {
        value as u64
    } else {
        (value + 0x1_0000_0000_0000_0000) as u64
    }
}

/// The signed number with the same 64-bit two's complement pattern.
pub open spec fn i64_of_bits(bits: u64) -> i64 {
    if bits < 0x8000_0000_0000_0000 {
        bits as i64
    } else {
        (bits - 0x1_0000_0000_0000_0000) as i64
    }
}

/// The powers of 256 that the codecs use.
pub proof fn lemma_radix_values()
    ensures
        radix(0) == 1,
        radix(1) == 0x100,
        radix(2) == 0x1_0000,
        radix(4) == 0x1_0000_0000,
        radix(7) == 0x100_0000_0000_0000,
        radix(8) == 0x1_0000_0000_0000_0000,
{
    reveal_with_fuel(radix, 10);
}

/// A wider field holds at least as many values.
pub proof fn lemma_radix_monotonic(narrow: nat, wide: nat)
    requires
        narrow <= wide,
    ensures
        radix(narrow) <= radix(wide),
    decreases wide,
{
    if narrow < wide {
        lemma_radix_monotonic(narrow, (wide - 1) as nat);
    }
}

/// `le_bytes` always yields exactly `width` bytes.
pub proof fn lemma_le_bytes_len(value: nat, width: nat)
    ensures
        le_bytes(value, width).len() == width,
    decreases width,
{
    if width > 0 {
        lemma_le_bytes_len(value / 256, (width - 1) as nat);
    }
}

/// The number read from `n` bytes is below `256^n`.
pub proof fn lemma_le_value_bound(bytes: Seq<u8>)
    ensures
        le_value(bytes) < radix(bytes.len()),
    decreases bytes.len(),
{
    if bytes.len() > 0 {
        lemma_le_value_bound(bytes.drop_first());
    }
}

/// Reading back the little-endian bytes of a value that fits in `width` bytes
/// gives that value.
pub proof fn lemma_le_round_trip(value: nat, width: nat)
    requires
        value < radix(width),
    ensures
        le_bytes(value, width).len() == width,
        le_value(le_bytes(value, width)) == value,
    decreases width,
{
    lemma_le_bytes_len(value, width);
    if width > 0 {
        let rest = le_bytes(value / 256, (width - 1) as nat);
        lemma_le_round_trip(value / 256, (width - 1) as nat);
        assert(le_bytes(value, width).drop_first() =~= rest);
    }
}

/// Writing out the number read from some bytes gives those bytes again.
pub proof fn lemma_le_bytes_of_value(bytes: Seq<u8>)
    ensures
        le_bytes(le_value(bytes), bytes.len()) == bytes,
    decreases bytes.len(),
{
    if bytes.len() > 0 {
        let tail = bytes.drop_first();
        lemma_le_bytes_of_value(tail);
        let value = le_value(bytes);
        assert(value % 256 == bytes[0] as nat);
        assert(value / 256 == le_value(tail));
        assert(le_bytes(value, bytes.len()) =~= bytes);
    } else {
        assert(le_bytes(le_value(bytes), bytes.len()) =~= bytes);
    }
}

/// Append the `width` low-order bytes of `value` to `buffer`, least
/// significant first.
pub fn put_le(buffer: &mut Vec<u8>, value: u64, width: usize)
    requires
        width <= 8,
    ensures
        final(buffer)@ == old(buffer)@ + le_bytes(value as nat, width as nat),
{
    let mut rest: u64 = value;
    let mut done: usize = 0;
    while done < width
        invariant
            done <= width,
            buffer@ + le_bytes(rest as nat, (width - done) as nat) =~= old(buffer)@ + le_bytes(
                value as nat,
                width as nat,
            ),
        decreases width - done,
    {
        let ghost before = buffer@;
        let digit: u8 = (rest % 256) as u8;
        buffer.push(digit);
        proof {
            let tail = le_bytes((rest / 256) as nat, (width - done - 1) as nat);
            assert(le_bytes(rest as nat, (width - done) as nat) =~= seq![digit] + tail);
            assert(buffer@ + tail =~= before + (seq![digit] + tail));
        }
        rest = rest / 256;
        done = done + 1;
    }
    assert(le_bytes(rest as nat, 0) =~= Seq::<u8>::empty());
    assert(buffer@ + Seq::<u8>::empty() =~= buffer@);
}

/// Read the little-endian number held in the `width` bytes of `input` that
/// start at `at`.
pub fn get_le(input: &[u8], at: usize, width: usize) -> (value: u64)
    requires
        width <= 8,
        at + width <= input@.len(),
    ensures
        value as nat == le_value(input@.subrange(at as int, at + width)),
        (value as nat) < radix(width as nat),
{
    let size: usize = input.len();
    let mut value: u64 = 0;
    let mut left: usize = width;
    while left > 0
        invariant
            left <= width <= 8,
            at + width <= size == input@.len(),
            value as nat == le_value(input@.subrange(at + left, at + width)),
        decreases left,
    {
        let ghost high = input@.subrange(at + left, at + width);
        let ghost with_digit = input@.subrange(at + left - 1, at + width);
        proof {
            lemma_le_value_bound(high);
            lemma_radix_monotonic(high.len(), 7);
            lemma_radix_values();
            assert(with_digit.drop_first() =~= high);
        }
        left = left - 1;
        value = value * 256 + input[at + left] as u64;
    }
    proof {
        lemma_le_value_bound(input@.subrange(at as int, at + width));
    }
    value
}

/// Append the two bytes of `value`, most significant first.
pub fn put_be16(buffer: &mut Vec<u8>, value: u16)
    ensures
        final(buffer)@ == old(buffer)@ + be_bytes16(value),
{
    buffer.push((value / 256) as u8);
    buffer.push((value % 256) as u8);
    assert(buffer@ =~= old(buffer)@ + be_bytes16(value));
}

/// Read the big-endian number held in the two bytes of `input` at `at`.
pub fn get_be16(input: &[u8], at: usize) -> (value: u16)
    requires
        at + 2 <= input@.len(),
    ensures
        value == be_value16(input@.subrange(at as int, at + 2)),
{
    let high: u16 = input[at] as u16;
    let low: u16 = input[at + 1] as u16;
    high * 256 + low
}

/// The unsigned number with the bit pattern of `value`.
pub fn i32_to_bits(value: i32) -> (bits: u32)
    ensures
        bits == bits_of_i32(value),
{
    if value >= 0 {
        value as u32
    } else {
        (value as i64 + 0x1_0000_0000) as u32
    }
}

/// The signed number with the bit pattern `bits`.
pub fn i32_from_bits(bits: u32) -> (value: i32)
    ensures
        value == i32_of_bits(bits),
{
    if bits < 0x8000_0000 {
        bits as i32
    } else {
        (bits as i64 - 0x1_0000_0000) as i32
    }
}

/// The unsigned number with the bit pattern of `value`.
pub fn i64_to_bits(value: i64) -> (bits: u64)
    ensures
        bits == bits_of_i64(value),
{
    if value >= 0 {
        value as u64
    } else {
        (value as i128 + 0x1_0000_0000_0000_0000) as u64
    }
}

/// The signed number with the bit pattern `bits`.
pub fn i64_from_bits(bits: u64) -> (value: i64)
    ensures
        value == i64_of_bits(bits),
{
    if bits < 0x8000_0000_0000_0000 {
        bits as i64
    } else {
        (bits as i128 - 0x1_0000_0000_0000_0000) as i64
    }
}

/// `String::from_utf8` of std: it accepts exactly the byte sequences that are
/// well-formed UTF-8 and then yields the text that those bytes encode; any
/// other input is turned down, which shows here as `None`.
#[verifier::external_body]
pub(crate) fn text_from_utf8(bytes: Vec<u8>) -> (text: Option<String>)
    ensures
        text is Some <==> valid_utf8(bytes@),
        text matches Some(s) ==> s@ == decode_utf8(bytes@),
{
    match String::from_utf8(bytes) {
        Ok(text) => Some(text),
        Err(_) => None,
    }
}

} // verus!

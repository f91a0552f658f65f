//! Sample encodings and the byte-level codec for single samples.
//!
//! A sample is one scalar of one channel at one pixel. Three encodings
//! exist: 2-byte half-precision float, 4-byte single-precision float and
//! 4-byte unsigned integer. This layer moves bits only: float samples are
//! carried as their IEEE-754 bit patterns, and their numeric
//! interpretation is left to the caller.

use vstd::prelude::*;

verus! {

/// The on-disk encoding of one channel's samples.
#[derive(Clone, Copy, PartialEq, Eq, Structural, Debug)]
pub enum SampleType {
    /// 2-byte IEEE-754 half-precision float.
    F16,
    /// 4-byte IEEE-754 single-precision float.
    F32,
    /// 4-byte unsigned integer.
    U32,
}

/// One decoded sample, as the bit pattern read from or written to a block.
/// `F16` and `F32` carry the float's bits; `U32` carries the integer itself.
#[derive(Clone, Copy, PartialEq, Eq, Structural, Debug)]
pub enum Sample {
    F16(u16),
    F32(u32),
    U32(u32),
}

impl Sample {
    /// Whether this sample is of the given encoding.
    pub open spec fn is_of_type(self, t: SampleType) -> bool {
        match (self, t) {
            (Sample::F16(_), SampleType::F16) => true,
            (Sample::F32(_), SampleType::F32) => true,
            (Sample::U32(_), SampleType::U32) => true,
            _ => false,
        }
    }
}

/// How many bytes one sample of encoding `t` occupies.
pub open spec fn spec_bytes_per_sample(t: SampleType) -> nat {
    match t {
        SampleType::F16 => 2,
        SampleType::F32 => 4,
        SampleType::U32 => 4,
    }
}

impl SampleType {
    /// How many bytes one sample of this encoding occupies.
    pub fn bytes_per_sample(self) -> (r: usize)
        ensures
            r == spec_bytes_per_sample(self),
    {
        match self {
            SampleType::F16 => 2,
            SampleType::F32 => 4,
            SampleType::U32 => 4,
        }
    }
}

/// The 16-bit value held by two little-endian bytes.
pub open spec fn spec_u16_from_le(b0: u8, b1: u8) -> u16 {
    (b0 + b1 * 0x100) as u16
}

/// The 32-bit value held by four little-endian bytes.
pub open spec fn spec_u32_from_le(b0: u8, b1: u8, b2: u8, b3: u8) -> u32 {
    (b0 + b1 * 0x100 + b2 * 0x10000 + b3 * 0x1000000) as u32
}

/// The sample of encoding `t` held by `bytes`, which must be exactly
/// `spec_bytes_per_sample(t)` bytes, in the byte order of the container.
pub open spec fn spec_sample_from_bytes(t: SampleType, bytes: Seq<u8>) -> Sample {
    match t {
        SampleType::F16 => Sample::F16(spec_u16_from_le(bytes[0], bytes[1])),
        SampleType::F32 => Sample::F32(spec_u32_from_le(bytes[0], bytes[1], bytes[2], bytes[3])),
        SampleType::U32 => Sample::U32(spec_u32_from_le(bytes[0], bytes[1], bytes[2], bytes[3])),
    }
}

/// The little-endian bytes of a 16-bit value.
pub open spec fn spec_u16_to_le(v: u16) -> Seq<u8> {
    seq![(v % 0x100) as u8, ((v / 0x100) % 0x100) as u8]
}

/// The little-endian bytes of a 32-bit value.
pub open spec fn spec_u32_to_le(v: u32) -> Seq<u8> {
    seq![
        (v % 0x100) as u8,
        ((v / 0x100) % 0x100) as u8,
        ((v / 0x10000) % 0x100) as u8,
        ((v / 0x1000000) % 0x100) as u8,
    ]
}

/// The bytes one sample occupies in a block: its value in the byte order
/// of the container, `spec_bytes_per_sample` of its encoding many.
pub open spec fn spec_sample_to_bytes(s: Sample) -> Seq<u8> {
    match s {
        Sample::F16(v) => spec_u16_to_le(v),
        Sample::F32(v) => spec_u32_to_le(v),
        Sample::U32(v) => spec_u32_to_le(v),
    }
}

/// Reading back the bytes of a 16-bit value yields the value.
pub proof fn lemma_u16_le_round_trip(v: u16)
    ensures
        spec_u16_from_le(spec_u16_to_le(v)[0], spec_u16_to_le(v)[1]) == v,
{
}

/// Reading back the bytes of a 32-bit value yields the value.
pub proof fn lemma_u32_le_round_trip(v: u32)
    ensures
        spec_u32_from_le(
            spec_u32_to_le(v)[0],
            spec_u32_to_le(v)[1],
            spec_u32_to_le(v)[2],
            spec_u32_to_le(v)[3],
        ) == v,
{
}

/// Encoding a sample and decoding the bytes at its own encoding yields
/// the sample again.
pub proof fn lemma_sample_round_trip(s: Sample, t: SampleType)
    requires
        s.is_of_type(t),
    ensures
        spec_sample_from_bytes(t, spec_sample_to_bytes(s)) == s,
{
    match s {
        Sample::F16(v) => lemma_u16_le_round_trip(v),
        Sample::F32(v) => lemma_u32_le_round_trip(v),
        Sample::U32(v) => lemma_u32_le_round_trip(v),
    }
}

/// Reads the 16-bit value at `bytes[i..i + 2]`, little endian.
pub fn read_u16_le(bytes: &[u8], i: usize) -> (r: u16)
    requires
        i + 2 <= bytes@.len(),
    ensures
        r == spec_u16_from_le(bytes@[i as int], bytes@[i + 1]),
{
    bytes[i] as u16 + bytes[i + 1] as u16 * 0x100
}

/// Reads the 32-bit value at `bytes[i..i + 4]`, little endian.
pub fn read_u32_le(bytes: &[u8], i: usize) -> (r: u32)
    requires
        i + 4 <= bytes@.len(),
    ensures
        r == spec_u32_from_le(bytes@[i as int], bytes@[i + 1], bytes@[i + 2], bytes@[i + 3]),
{
    bytes[i] as u32 + bytes[i + 1] as u32 * 0x100 + bytes[i + 2] as u32 * 0x10000 + bytes[i
        + 3] as u32 * 0x1000000
}

} // verus!

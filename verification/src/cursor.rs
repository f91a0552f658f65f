//! The per-channel, per-pixel cursor protocol of the read path.
//!
//! A `PixelReader` is built once per layer from the resolved selection;
//! from it, a `PixelLineReader` is built once per row, given that row's
//! pixel width. The line reader is stateful: it advances sample by
//! sample as pixels are consumed left to right, one whole pixel (all
//! selected slots) per call.

use vstd::prelude::*;
use crate::samples::{
    Sample, SampleType, read_u16_le, read_u32_le, spec_bytes_per_sample, spec_sample_from_bytes,
};
use crate::channels::{
    ChannelDescriptor, ResolvedChannel, spec_bytes_per_pixel, spec_offset_of, lemma_offset_step,
    lemma_bytes_per_pixel_prefix,
};
use crate::Error;

verus! {

/// The per-row state of one selected channel: the sample encoding and
/// the next byte to read within the row, or a stateless no-op for an
/// absent slot.
#[derive(Clone, Copy, PartialEq, Eq, Structural, Debug)]
pub enum SlotCursor {
    /// The slot reads samples of `sample_type`, the next one at
    /// `byte_index` in the row buffer.
    Present { sample_type: SampleType, byte_index: usize },
    /// The slot reads nothing and always yields no value.
    Absent,
}

/// Whether one more sample of this slot lies within a row of `len` bytes.
pub open spec fn spec_slot_in_bounds(s: SlotCursor, len: nat) -> bool {
    match s {
        SlotCursor::Present { sample_type, byte_index } => byte_index + spec_bytes_per_sample(
            sample_type,
        ) <= len,
        SlotCursor::Absent => true,
    }
}

/// The value one read of this slot yields from `bytes`.
pub open spec fn spec_slot_value(s: SlotCursor, bytes: Seq<u8>) -> Option<Sample> {
    match s {
        SlotCursor::Present { sample_type, byte_index } => Some(
            spec_sample_from_bytes(
                sample_type,
                bytes.subrange(
                    byte_index as int,
                    byte_index + spec_bytes_per_sample(sample_type),
                ),
            ),
        ),
        SlotCursor::Absent => None,
    }
}

/// The cursor after one read: advanced by the sample's byte size.
pub open spec fn spec_slot_advanced(s: SlotCursor) -> SlotCursor {
    match s {
        SlotCursor::Present { sample_type, byte_index } => SlotCursor::Present {
            sample_type,
            byte_index: (byte_index + spec_bytes_per_sample(sample_type)) as usize,
        },
        SlotCursor::Absent => SlotCursor::Absent,
    }
}

impl SlotCursor {
    /// Decodes one sample of this slot from the row buffer and advances;
    /// yields no value (and reads nothing) for an absent slot. Fails with
    /// `TruncatedRow`, leaving the cursor unchanged, exactly when the
    /// sample would run past the end of the row buffer.
    pub fn read_next_sample(&mut self, bytes: &[u8]) -> (r: Result<Option<Sample>, Error>)
        ensures
            match r {
                Ok(os) => {
                    &&& spec_slot_in_bounds(*old(self), bytes@.len())
                    &&& os == spec_slot_value(*old(self), bytes@)
                    &&& *final(self) == spec_slot_advanced(*old(self))
                },
                Err(e) => {
                    &&& e == Error::TruncatedRow
                    &&& !spec_slot_in_bounds(*old(self), bytes@.len())
                    &&& *final(self) == *old(self)
                },
            },
    {
        let (t, idx) = match *self {
            SlotCursor::Absent => {
                return Ok(None);
            },
            SlotCursor::Present { sample_type, byte_index } => (sample_type, byte_index),
        };
        let size = t.bytes_per_sample();
        if idx > bytes.len() || bytes.len() - idx < size {
            return Err(Error::TruncatedRow);
        }
        let sample = match t {
            SampleType::F16 => Sample::F16(read_u16_le(bytes, idx)),
            SampleType::F32 => Sample::F32(read_u32_le(bytes, idx)),
            SampleType::U32 => Sample::U32(read_u32_le(bytes, idx)),
        };
        proof {
            let sub = bytes@.subrange(idx as int, idx + spec_bytes_per_sample(t));
            assert(sub[0] == bytes@[idx as int]);
            assert(sub[1] == bytes@[idx + 1]);
            if spec_bytes_per_sample(t) == 4 {
                assert(sub[2] == bytes@[idx + 2]);
                assert(sub[3] == bytes@[idx + 3]);
            }
        }
        *self = SlotCursor::Present { sample_type: t, byte_index: idx + size };
        Ok(Some(sample))
    }
}

/// A stateful reader for one row of pixels: one cursor per selected slot,
/// all advanced together, once per pixel column.
#[derive(Clone, PartialEq, Eq, Debug)]
pub struct PixelLineReader {
    /// One cursor per selection slot, in selection order.
    pub slots: Vec<SlotCursor>,
}

impl PixelLineReader {
    /// Decodes one whole pixel: one present-or-absent value per selection
    /// slot, in selection order, each slot advancing past the sample it
    /// read. Fails with `TruncatedRow`, leaving the reader unchanged,
    /// exactly when some slot's sample would run past the end of the row.
    pub fn read_next_pixel(&mut self, bytes: &[u8]) -> (r: Result<Vec<Option<Sample>>, Error>)
        ensures
            match r {
                Ok(px) => {
                    &&& px@.len() == old(self).slots@.len()
                    &&& final(self).slots@.len() == old(self).slots@.len()
                    &&& forall|j: int|
                        0 <= j < px@.len() ==> spec_slot_in_bounds(
                            old(self).slots@[j],
                            bytes@.len(),
                        )
                    &&& forall|j: int|
                        0 <= j < px@.len() ==> px@[j] == spec_slot_value(
                            old(self).slots@[j],
                            bytes@,
                        )
                    &&& forall|j: int|
                        0 <= j < px@.len() ==> final(self).slots@[j] == spec_slot_advanced(
                            old(self).slots@[j],
                        )
                },
                Err(e) => {
                    &&& e == Error::TruncatedRow
                    &&& exists|j: int|
                        0 <= j < old(self).slots@.len() && !spec_slot_in_bounds(
                            old(self).slots@[j],
                            bytes@.len(),
                        )
                    &&& *final(self) == *old(self)
                },
            },
    {
        let n = self.slots.len();
        let mut px: Vec<Option<Sample>> = Vec::new();
        let mut advanced: Vec<SlotCursor> = Vec::new();
        let mut j: usize = 0;
        while j < n
            invariant
                n == self.slots@.len(),
                j <= n,
                px@.len() == j,
                advanced@.len() == j,
                forall|k: int|
                    0 <= k < j ==> spec_slot_in_bounds(self.slots@[k], bytes@.len()),
                forall|k: int| 0 <= k < j ==> px@[k] == spec_slot_value(self.slots@[k], bytes@),
                forall|k: int|
                    0 <= k < j ==> advanced@[k] == spec_slot_advanced(self.slots@[k]),
            decreases n - j,
        {
            let mut cursor = self.slots[j];
            match cursor.read_next_sample(bytes) {
                Ok(value) => {
                    px.push(value);
                    advanced.push(cursor);
                },
                Err(e) => {
                    return Err(e);
                },
            }
            j = j + 1;
        }
        self.slots = advanced;
        Ok(px)
    }
}

/// The pixel-reader template of one layer: the resolved selection, from
/// which a fresh line reader is built for each row.
#[derive(Clone, PartialEq, Eq, Debug)]
pub struct PixelReader {
    /// The resolved selection slots, in selection order.
    pub channels: Vec<ResolvedChannel>,
}

/// The cursor of one resolved slot after `x` whole pixels of a row of
/// `width` pixels have been consumed: a present channel's run starts at
/// `byte_offset * width` and each consumed pixel advanced it one sample.
pub open spec fn spec_cursor_at(rc: ResolvedChannel, width: nat, x: int) -> SlotCursor {
    match rc {
        ResolvedChannel::Present { sample_type, byte_offset, channel_index } => {
            SlotCursor::Present {
                sample_type,
                byte_index: (byte_offset * width + x * spec_bytes_per_sample(
                    sample_type,
                )) as usize,
            }
        },
        ResolvedChannel::Absent => SlotCursor::Absent,
    }
}

/// Whether a present slot's run start `byte_offset * width` fits the
/// machine's word.
pub open spec fn spec_slot_start_fits(rc: ResolvedChannel, width: nat) -> bool {
    match rc {
        ResolvedChannel::Present { sample_type, byte_offset, channel_index } => byte_offset * width
            <= usize::MAX,
        ResolvedChannel::Absent => true,
    }
}

impl PixelReader {
    /// Builds the line reader for one row of `pixel_count` pixels: each
    /// present slot's cursor starts at its channel's planar run,
    /// `byte_offset * pixel_count`; absent slots stay no-ops.
    pub fn create_pixel_reader_for_line(&self, pixel_count: usize) -> (r: PixelLineReader)
        requires
            forall|j: int|
                0 <= j < self.channels@.len() ==> spec_slot_start_fits(
                    self.channels@[j],
                    pixel_count as nat,
                ),
        ensures
            r.slots@.len() == self.channels@.len(),
            forall|j: int|
                0 <= j < self.channels@.len() ==> r.slots@[j] == spec_cursor_at(
                    self.channels@[j],
                    pixel_count as nat,
                    0,
                ),
    {
        let n = self.channels.len();
        let mut slots: Vec<SlotCursor> = Vec::new();
        let mut j: usize = 0;
        while j < n
            invariant
                n == self.channels@.len(),
                j <= n,
                slots@.len() == j,
                forall|k: int|
                    0 <= k < n ==> spec_slot_start_fits(self.channels@[k], pixel_count as nat),
                forall|k: int|
                    0 <= k < j ==> slots@[k] == spec_cursor_at(
                        self.channels@[k],
                        pixel_count as nat,
                        0,
                    ),
            decreases n - j,
        {
            let slot = match self.channels[j] {
                ResolvedChannel::Present { sample_type, byte_offset, channel_index } => {
                    SlotCursor::Present {
                        sample_type,
                        byte_index: byte_offset * pixel_count,
                    }
                },
                ResolvedChannel::Absent => SlotCursor::Absent,
            };
            slots.push(slot);
            j = j + 1;
        }
        PixelLineReader { slots }
    }
}

/// Whether one resolved slot describes a channel of `list`: its index is
/// in range and its encoding and planar offset are that channel's.
pub open spec fn spec_slot_compatible(rc: ResolvedChannel, list: Seq<ChannelDescriptor>) -> bool {
    match rc {
        ResolvedChannel::Present { sample_type, byte_offset, channel_index } => {
            &&& channel_index < list.len()
            &&& sample_type == list[channel_index as int].sample_type
            &&& byte_offset == spec_offset_of(list, channel_index as int)
        },
        ResolvedChannel::Absent => true,
    }
}

/// A compatible present slot ends, per pixel, at or before the pixel's
/// last byte: `byte_offset + bytes per sample <= bytes per pixel`.
pub proof fn lemma_slot_within_pixel(rc: ResolvedChannel, list: Seq<ChannelDescriptor>)
    requires
        spec_slot_compatible(rc, list),
    ensures
        (match rc {
            ResolvedChannel::Present { sample_type, byte_offset, channel_index } => byte_offset
                + spec_bytes_per_sample(sample_type) <= spec_bytes_per_pixel(list),
            ResolvedChannel::Absent => true,
        }),
{
    match rc {
        ResolvedChannel::Present { sample_type, byte_offset, channel_index } => {
            lemma_offset_step(list, channel_index as int);
            lemma_bytes_per_pixel_prefix(list, channel_index + 1);
        },
        ResolvedChannel::Absent => {},
    }
}

} // verus!

//! A channel-selection and pixel codec layer for multi-channel image
//! containers with channel-planar block layout.
//!
//! A caller declares an ordered selection of named channels (each required or
//! optional), resolves it once against a layer's channel list, and then
//! decodes or encodes those channels block by block, sample by sample,
//! into or out of a caller-supplied pixel storage.

use vstd::prelude::*;

mod channels;
mod cursor;
mod layers;
mod meta;
mod pixels;
mod read;
mod samples;
mod write;

pub use channels::{
    ChannelDescriptor, ChannelList, ChannelSelection, ChannelSelectionEntry, ResolvedChannel,
    lemma_bytes_per_pixel_prefix, lemma_find_channel_hit, lemma_find_channel_miss,
    lemma_first_missing_hit, lemma_first_missing_none, lemma_offset_monotone, lemma_offset_step,
    lemma_resolve_deterministic, spec_bytes_per_pixel, spec_find_channel, spec_first_missing,
    spec_offset_of, spec_resolve_slot,
};
pub use cursor::{
    PixelLineReader, PixelReader, SlotCursor, lemma_slot_within_pixel, spec_cursor_at,
    spec_slot_advanced, spec_slot_compatible, spec_slot_in_bounds, spec_slot_start_fits,
    spec_slot_value,
};
pub use layers::{
    AllLayersWriter, Layer, LayerWriter, LayersWriter, WritableLayers, spec_channel_list_eq,
    spec_header_matches,
};
pub use meta::{
    BlockDescription, BlockIndex, Blocks, Compression, Encoding, Header, ImageAttributes,
    LayerAttributes, LevelMode, LineOrder, RoundingMode, TileCoordinates, TileDescription,
    UncompressedBlock,
};
pub use pixels::{
    Flattened, FlattenedCreator, FlattenedSink, FlattenedSource, create_flattened,
    duplicate_pixel, get_flattened_pixel, lemma_block_positions_distinct,
    lemma_flattened_block_decode, lemma_flattened_decode, set_flattened_pixel,
    spec_last_write_at, spec_untouched,
};
pub use read::{
    ChannelsInfo, CreatePixels, ReadSpecificChannels, SetPixel, SpecificChannels,
    SpecificChannelsReader, lemma_apply_chain_empty, lemma_apply_chain_push,
    lemma_find_channel_in_range, lemma_resolve_slot_compatible, spec_apply_chain,
    spec_apply_states, spec_block_pixel, spec_block_pixels, spec_pixel_at,
    spec_reader_compatible, spec_row_of, spec_slot_descriptor_ok,
};
pub use samples::{
    Sample, SampleType, lemma_sample_round_trip, lemma_u16_le_round_trip,
    lemma_u32_le_round_trip, read_u16_le, read_u32_le, spec_bytes_per_sample,
    spec_sample_from_bytes, spec_sample_to_bytes, spec_u16_from_le, spec_u16_to_le,
    spec_u32_from_le, spec_u32_to_le,
};
pub use write::{
    GetPixel, WritableChannels, lemma_encode_decode_round_trip, lemma_encoded_rows_len,
    lemma_encoded_sample_bytes, lemma_planar_layout, lemma_row_built_len, lemma_row_len,
    lemma_run_len, spec_encoded_block, spec_encoded_rows, spec_identity_slot, spec_pixel_matches,
    spec_position, spec_row_built, spec_run, spec_sample_matches, spec_source_ok,
    spec_source_pixel_ok,
};

verus! {

/// A two-dimensional size or position, `(x, y)` or `(width, height)`.
#[derive(Clone, Copy, PartialEq, Eq, Structural, Debug)]
pub struct Vec2(pub usize, pub usize);

impl Vec2 {
    /// The number of pixels in a rectangle of this size, as a mathematical
    /// integer (no overflow).
    pub open spec fn spec_area(self) -> nat {
        (self.0 * self.1) as nat
    }

    /// The number of pixels in a rectangle of this size.
    pub fn area(self) -> (r: usize)
        requires
            self.spec_area() <= usize::MAX,
        ensures
            r == self.spec_area(),
    {
        self.0 * self.1
    }
}

/// The errors of this library. All are terminal for the layer or block
/// being processed; none is retriable.
#[derive(Clone, PartialEq, Eq, Debug)]
pub enum Error {
    /// The layer stores deep data (variable sample counts per pixel),
    /// which the flat channel-planar layout cannot describe.
    InvalidLayer,
    /// A required selected channel name has no match in the layer's
    /// channel list. Carries the missing name.
    MissingChannel { name: Vec<u8> },
    /// A block's byte length does not match `bytes per pixel x area`.
    InvalidBlock,
    /// A sample read would run past the end of the row buffer.
    TruncatedRow,
}

/// Holds exactly when `e` is the `MissingChannel` error naming `name`.
pub open spec fn is_missing_channel(e: Error, name: Seq<u8>) -> bool {
    match e {
        Error::MissingChannel { name: n } => n@ == name,
        _ => false,
    }
}

} // verus!

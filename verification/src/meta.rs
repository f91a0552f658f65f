//! Per-layer metadata: the header and the block geometry it declares.

use vstd::prelude::*;
use crate::Vec2;
use crate::channels::ChannelList;

verus! {

/// The compression applied to this layer's blocks. Compression itself is
/// an outside collaborator: this core only records the choice.
#[derive(Clone, Copy, PartialEq, Eq, Structural, Debug)]
pub enum Compression {
    Uncompressed,
    Rle,
    Zip,
    Piz,
}

/// The order in which a layer's blocks appear.
#[derive(Clone, Copy, PartialEq, Eq, Structural, Debug)]
pub enum LineOrder {
    Increasing,
    Decreasing,
    Unspecified,
}

/// How sizes of coarser resolution levels are rounded.
#[derive(Clone, Copy, PartialEq, Eq, Structural, Debug)]
pub enum RoundingMode {
    Down,
    Up,
}

/// Which resolution levels a tiled layer stores.
#[derive(Clone, Copy, PartialEq, Eq, Structural, Debug)]
pub enum LevelMode {
    Singular,
    MipMap,
    RipMap,
}

/// The tile shape of a tiled layer.
#[derive(Clone, Copy, PartialEq, Eq, Structural, Debug)]
pub struct TileDescription {
    pub tile_size: Vec2,
    pub level_mode: LevelMode,
    pub rounding_mode: RoundingMode,
}

/// The block shape a header declares: whole scan lines, or tiles.
#[derive(Clone, Copy, PartialEq, Eq, Structural, Debug)]
pub enum BlockDescription {
    ScanLines,
    Tiles(TileDescription),
}

/// The block shape a caller requests when writing a layer.
#[derive(Clone, Copy, PartialEq, Eq, Structural, Debug)]
pub enum Blocks {
    ScanLines,
    Tiles { tile_size: Vec2, rounding_mode: RoundingMode },
}

/// How a layer's blocks are stored when writing.
#[derive(Clone, Copy, PartialEq, Eq, Structural, Debug)]
pub struct Encoding {
    pub compression: Compression,
    pub blocks: Blocks,
    pub line_order: LineOrder,
}

/// Attributes shared by all layers of an image.
#[derive(Clone, Copy, PartialEq, Eq, Structural, Debug)]
pub struct ImageAttributes {
    /// The size of the whole image's display window.
    pub display_size: Vec2,
}

/// Attributes of one layer alone.
#[derive(Clone, Copy, PartialEq, Eq, Structural, Debug)]
pub struct LayerAttributes {
    /// The layer's position within the display window.
    pub position_x: i64,
    pub position_y: i64,
}

/// One layer's metadata: its channel list, geometry, and the choices a
/// writer made for it.
#[derive(Clone, PartialEq, Eq, Debug)]
pub struct Header {
    /// The layer's ordered channel list, which defines its on-disk layout.
    pub channels: ChannelList,
    pub compression: Compression,
    pub blocks: BlockDescription,
    pub line_order: LineOrder,
    /// The dimensions of this layer, width and height.
    pub layer_size: Vec2,
    pub shared_attributes: ImageAttributes,
    pub own_attributes: LayerAttributes,
    /// Whether the layer stores deep data. Deep layers are rejected by
    /// this core before any channel resolution is attempted.
    pub deep: bool,
    pub deep_data_version: Option<i32>,
    pub chunk_count: usize,
    pub max_samples_per_pixel: Option<usize>,
}

/// The position of one tile within a layer's block grid, and the
/// resolution level it belongs to.
#[derive(Clone, Copy, PartialEq, Eq, Structural, Debug)]
pub struct TileCoordinates {
    /// The tile's index within its resolution level.
    pub tile_index: Vec2,
    /// The resolution level: `(0, 0)` is the base (largest) level.
    pub level_index: Vec2,
}

impl TileCoordinates {
    /// Whether this tile belongs to the base (largest) resolution level.
    pub open spec fn spec_is_largest_resolution_level(self) -> bool {
        self.level_index == Vec2(0, 0)
    }

    /// Whether this tile belongs to the base (largest) resolution level.
    pub fn is_largest_resolution_level(&self) -> (r: bool)
        ensures
            r == self.spec_is_largest_resolution_level(),
    {
        self.level_index.0 == 0 && self.level_index.1 == 0
    }
}

/// Where one uncompressed block lies: its layer, its pixel rectangle and
/// its resolution level.
#[derive(Clone, Copy, PartialEq, Eq, Structural, Debug)]
pub struct BlockIndex {
    /// The index of the layer this block belongs to.
    pub layer: usize,
    /// The block's top-left pixel position within the layer.
    pub pixel_position: Vec2,
    /// The block's size in pixels, width and height.
    pub pixel_size: Vec2,
    /// The resolution level: `(0, 0)` is the base (largest) level.
    pub level: Vec2,
}

/// One decoded block: its position and its raw bytes, `height` contiguous
/// rows of `width * bytes per pixel` bytes each, channel-planar within
/// each row.
#[derive(Clone, PartialEq, Eq, Debug)]
pub struct UncompressedBlock {
    /// Where the block lies.
    pub index: BlockIndex,
    /// The block's raw bytes.
    pub data: Vec<u8>,
}

} // verus!

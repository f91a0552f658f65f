//! Multi-layer write orchestration: inferring one header per layer and
//! routing a requested block to the right layer's channel writer.

use vstd::prelude::*;
use crate::channels::ChannelDescriptor;
use crate::meta::{
    BlockDescription, BlockIndex, Blocks, Encoding, Header, ImageAttributes, LayerAttributes,
    TileDescription,
};
use crate::write::{GetPixel, WritableChannels, spec_encoded_block, spec_source_ok};
use crate::channels::spec_bytes_per_pixel;
use crate::Vec2;

verus! {

/// Whether two channel lists declare the same channels: same names, same
/// encodings, in the same order.
pub open spec fn spec_channel_list_eq(
    a: Seq<ChannelDescriptor>,
    b: Seq<ChannelDescriptor>,
) -> bool {
    &&& a.len() == b.len()
    &&& forall|i: int|
        0 <= i < a.len() ==> (#[trigger] a[i]).name@ == b[i].name@ && a[i].sample_type
            == b[i].sample_type
}

/// One layer to be written: its channel data, its own attributes, its
/// size and the choices of its encoding.
#[derive(Clone, PartialEq, Eq, Debug)]
pub struct Layer<Storage, Source> {
    /// The layer's channels, storage and pixel source.
    pub channel_data: WritableChannels<Storage, Source>,
    /// The layer's own attributes.
    pub attributes: LayerAttributes,
    /// The dimensions of this layer, width and height.
    pub size: Vec2,
    /// Compression, block shape and line order for this layer.
    pub encoding: Encoding,
}

/// Whether `h` is the header inferred for `layer` under the shared
/// `attrs`: the layer's channels, geometry and encoding choices, merged
/// attributes, and no deep data.
pub open spec fn spec_header_matches<Storage, Source>(
    layer: Layer<Storage, Source>,
    attrs: ImageAttributes,
    h: Header,
) -> bool {
    &&& spec_channel_list_eq(h.channels.list@, layer.channel_data.channel_list.list@)
    &&& h.compression == layer.encoding.compression
    &&& h.blocks == (match layer.encoding.blocks {
        Blocks::ScanLines => BlockDescription::ScanLines,
        Blocks::Tiles { tile_size, rounding_mode } => BlockDescription::Tiles(
            TileDescription {
                tile_size,
                level_mode: layer.channel_data.level_mode,
                rounding_mode,
            },
        ),
    })
    &&& h.line_order == layer.encoding.line_order
    &&& h.layer_size == layer.size
    &&& h.shared_attributes == attrs
    &&& h.own_attributes == layer.attributes
    &&& h.deep == false
    &&& h.deep_data_version is None
    &&& h.chunk_count == 0
    &&& h.max_samples_per_pixel is None
}

/// Something writable as a set of layers: it infers its headers and
/// yields a writer for its blocks.
pub trait WritableLayers: Sized {
    /// The writer this value turns into.
    type Writer;

    /// Whether `r` is the headers this value infers under `attrs`.
    spec fn spec_headers_ok(&self, attrs: ImageAttributes, r: Seq<Header>) -> bool;

    /// What `create_writer` asks of the headers it is given.
    spec fn create_writer_req(&self, headers: Seq<Header>) -> bool;

    /// Whether `w` is the writer made from this value.
    spec fn writer_ok(&self, w: Self::Writer) -> bool;

    /// Infers one header per layer, in layer order, from the layer's
    /// channel description, geometry and encoding, merged with the
    /// shared image attributes.
    fn infer_headers(&self, image_attributes: &ImageAttributes) -> (r: Vec<Header>)
        ensures
            self.spec_headers_ok(*image_attributes, r@),
    ;

    /// Turns this value into the writer of its blocks. The headers must
    /// be the ones inferred for these layers, in the same order.
    fn create_writer(self, headers: &[Header]) -> (w: Self::Writer)
        requires
            self.create_writer_req(headers@),
        ensures
            self.writer_ok(w),
    ;
}

/// A writer that can extract the uncompressed bytes of one block.
pub trait LayersWriter: Sized {
    /// What an extraction asks of the headers and the requested block.
    spec fn extract_req(&self, headers: Seq<Header>, block: BlockIndex) -> bool;

    /// Whether `r` is the bytes of the requested block.
    spec fn extracted_ok(&self, block: BlockIndex, r: Seq<u8>) -> bool;

    /// Extracts the uncompressed bytes of one block, routed by the
    /// block's layer index.
    fn extract_uncompressed_block(&self, headers: &[Header], block: BlockIndex) -> (r: Vec<u8>)
        requires
            self.extract_req(headers@, block),
        ensures
            self.extracted_ok(block, r@),
    ;
}

/// The writer of one layer.
#[derive(Clone, PartialEq, Eq, Debug)]
pub struct LayerWriter<Storage, Source> {
    /// The layer's channels, storage and pixel source.
    pub channels: WritableChannels<Storage, Source>,
}

/// The writer of a whole collection of layers, one writer per layer.
#[derive(Clone, PartialEq, Eq, Debug)]
pub struct AllLayersWriter<Storage, Source> {
    /// One writer per layer, in layer order.
    pub layers: Vec<LayerWriter<Storage, Source>>,
}

impl<Storage, Source: GetPixel<Storage>> WritableLayers for Layer<Storage, Source> {
    type Writer = LayerWriter<Storage, Source>;

    open spec fn spec_headers_ok(&self, attrs: ImageAttributes, r: Seq<Header>) -> bool {
        &&& r.len() == 1
        &&& spec_header_matches(*self, attrs, r[0])
    }

    open spec fn create_writer_req(&self, headers: Seq<Header>) -> bool {
        headers.len() >= 1
    }

    open spec fn writer_ok(&self, w: Self::Writer) -> bool {
        w.channels == self.channel_data
    }

    fn infer_headers(&self, image_attributes: &ImageAttributes) -> (r: Vec<Header>) {
        let header = Header {
            channels: self.channel_data.channel_list.duplicate(),
            compression: self.encoding.compression,
            blocks: match self.encoding.blocks {
                Blocks::ScanLines => BlockDescription::ScanLines,
                Blocks::Tiles { tile_size, rounding_mode } => BlockDescription::Tiles(
                    TileDescription {
                        tile_size,
                        level_mode: self.channel_data.level_mode,
                        rounding_mode,
                    },
                ),
            },
            line_order: self.encoding.line_order,
            layer_size: self.size,
            shared_attributes: *image_attributes,
            own_attributes: self.attributes,
            deep: false,
            deep_data_version: None,
            chunk_count: 0,
            max_samples_per_pixel: None,
        };
        let mut headers: Vec<Header> = Vec::new();
        headers.push(header);
        headers
    }

    fn create_writer(self, headers: &[Header]) -> (w: Self::Writer) {
        LayerWriter { channels: self.channel_data }
    }
}

impl<Storage, Source: GetPixel<Storage>> WritableLayers for Vec<Layer<Storage, Source>> {
    type Writer = AllLayersWriter<Storage, Source>;

    open spec fn spec_headers_ok(&self, attrs: ImageAttributes, r: Seq<Header>) -> bool {
        &&& r.len() == self@.len()
        &&& forall|i: int|
            0 <= i < r.len() ==> spec_header_matches(#[trigger] self@[i], attrs, r[i])
    }

    open spec fn create_writer_req(&self, headers: Seq<Header>) -> bool {
        headers.len() == self@.len()
    }

    open spec fn writer_ok(&self, w: Self::Writer) -> bool {
        &&& w.layers@.len() == self@.len()
        &&& forall|i: int|
            0 <= i < w.layers@.len() ==> (#[trigger] w.layers@[i]).channels
                == self@[i].channel_data
    }

    fn infer_headers(&self, image_attributes: &ImageAttributes) -> (r: Vec<Header>) {
        let mut headers: Vec<Header> = Vec::new();
        let mut i: usize = 0;
        while i < self.len()
            invariant
                i <= self@.len(),
                headers@.len() == i,
                forall|k: int|
                    0 <= k < i ==> spec_header_matches(
                        #[trigger] self@[k],
                        *image_attributes,
                        headers@[k],
                    ),
            decreases self@.len() - i,
        {
            let mut layer_headers = self[i].infer_headers(image_attributes);
            let header = layer_headers.remove(0);
            headers.push(header);
            i = i + 1;
        }
        headers
    }

    fn create_writer(self, headers: &[Header]) -> (w: Self::Writer) {
        let ghost layers0 = self@;
        let mut remaining = self;
        proof {
            assert(remaining@ =~= layers0.skip(0));
        }
        let mut writers: Vec<LayerWriter<Storage, Source>> = Vec::new();
        let mut i: usize = 0;
        let n = remaining.len();
        while i < n
            invariant
                i <= n,
                n == layers0.len(),
                headers@.len() == n,
                remaining@.len() == n - i,
                remaining@ == layers0.skip(i as int),
                writers@.len() == i,
                forall|k: int|
                    0 <= k < i ==> (#[trigger] writers@[k]).channels == layers0[k].channel_data,
            decreases n - i,
        {
            let layer = remaining.remove(0);
            proof {
                assert(layer == layers0[i as int]);
                assert(remaining@ =~= layers0.skip(i + 1));
            }
            let writer = layer.create_writer(headers);
            writers.push(writer);
            i = i + 1;
        }
        AllLayersWriter { layers: writers }
    }
}

impl<Storage, Source: GetPixel<Storage>> LayersWriter for LayerWriter<Storage, Source> {
    open spec fn extract_req(&self, headers: Seq<Header>, block: BlockIndex) -> bool {
        &&& headers.len() >= 1
        &&& self.channels.channel_list.wf()
        &&& spec_channel_list_eq(headers[0].channels.list@, self.channels.channel_list.list@)
        &&& spec_source_ok(
            self.channels.get_pixel,
            self.channels.storage,
            self.channels.channel_list.list@,
            block.pixel_position,
            block.pixel_size,
        )
        &&& block.pixel_position.0 + block.pixel_size.0 <= usize::MAX
        &&& block.pixel_position.1 + block.pixel_size.1 <= usize::MAX
        &&& spec_bytes_per_pixel(self.channels.channel_list.list@) * block.pixel_size.0
            * block.pixel_size.1 <= usize::MAX
    }

    open spec fn extracted_ok(&self, block: BlockIndex, r: Seq<u8>) -> bool {
        r == spec_encoded_block(
            self.channels.get_pixel,
            self.channels.storage,
            self.channels.channel_list.list@,
            block.pixel_position,
            block.pixel_size,
        )
    }

    fn extract_uncompressed_block(&self, headers: &[Header], block: BlockIndex) -> (r: Vec<u8>) {
        let header = &headers[0];
        self.channels.extract_uncompressed_block(header, block)
    }
}

impl<Storage, Source: GetPixel<Storage>> LayersWriter for AllLayersWriter<Storage, Source> {
    open spec fn extract_req(&self, headers: Seq<Header>, block: BlockIndex) -> bool {
        &&& block.layer < self.layers@.len()
        &&& block.layer < headers.len()
        &&& self.layers@[block.layer as int].extract_req(
            headers.subrange(block.layer as int, block.layer + 1),
            block,
        )
    }

    open spec fn extracted_ok(&self, block: BlockIndex, r: Seq<u8>) -> bool {
        block.layer < self.layers@.len() && self.layers@[block.layer as int].extracted_ok(
            block,
            r,
        )
    }

    fn extract_uncompressed_block(&self, headers: &[Header], block: BlockIndex) -> (r: Vec<u8>) {
        let header_count = headers.len();
        proof {
            assert(headers@.len() == header_count);
        }
        let layer_headers = vstd::slice::slice_subrange(headers, block.layer, block.layer + 1);
        self.layers[block.layer].extract_uncompressed_block(layer_headers, block)
    }
}

} // verus!

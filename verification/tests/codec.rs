//! Tests of block decoding and encoding: byte layout, validation,
//! filtering, the flattened storage, and the planar round trip.

use exr_channels::{
    BlockDescription, BlockIndex, Blocks, ChannelDescriptor, ChannelList, ChannelSelection,
    ChannelSelectionEntry, ChannelsInfo, Compression, Encoding, Error, Flattened,
    FlattenedCreator, FlattenedSink, FlattenedSource, Header, ImageAttributes, Layer,
    LayerAttributes, LayersWriter, LevelMode, LineOrder, PixelLineReader, ReadSpecificChannels,
    Sample, SampleType, SlotCursor, TileCoordinates, UncompressedBlock, Vec2, WritableChannels,
    WritableLayers, read_u16_le, read_u32_le,
};

fn desc(name: &str, sample_type: SampleType) -> ChannelDescriptor {
    ChannelDescriptor { name: name.as_bytes().to_vec(), sample_type }
}

fn entry(name: &str, required: bool) -> ChannelSelectionEntry {
    ChannelSelectionEntry { name: name.as_bytes().to_vec(), required }
}

fn header_for(channels: ChannelList, size: Vec2) -> Header {
    Header {
        channels,
        compression: Compression::Uncompressed,
        blocks: BlockDescription::ScanLines,
        line_order: LineOrder::Increasing,
        layer_size: size,
        shared_attributes: ImageAttributes { display_size: size },
        own_attributes: LayerAttributes { position_x: 0, position_y: 0 },
        deep: false,
        deep_data_version: None,
        chunk_count: 0,
        max_samples_per_pixel: None,
    }
}

fn block_at(origin: Vec2, size: Vec2, data: Vec<u8>) -> UncompressedBlock {
    UncompressedBlock {
        index: BlockIndex {
            layer: 0,
            pixel_position: origin,
            pixel_size: size,
            level: Vec2(0, 0),
        },
        data,
    }
}

/// A 2x2 block of two F32 channels R and G, channel-planar: row by row,
/// all R samples then all G samples.
fn rg_block_bytes(r: [f32; 4], g: [f32; 4]) -> Vec<u8> {
    let mut data = Vec::new();
    for row in 0..2 {
        for x in 0..2 {
            data.extend_from_slice(&r[row * 2 + x].to_bits().to_le_bytes());
        }
        for x in 0..2 {
            data.extend_from_slice(&g[row * 2 + x].to_bits().to_le_bytes());
        }
    }
    data
}

#[test]
fn byte_codec_reads_little_endian() {
    let bytes = [0x01u8, 0x02, 0x03, 0x04, 0x05];
    assert_eq!(read_u16_le(&bytes, 0), 0x0201);
    assert_eq!(read_u16_le(&bytes, 3), 0x0504);
    assert_eq!(read_u32_le(&bytes, 1), 0x05040302);
}

#[test]
fn planar_round_trip() {
    // Write a 2x2 image with channels R = [1,2,3,4] and G = [5,6,7,8].
    let size = Vec2(2, 2);
    let pixel = |r: f32, g: f32| -> Vec<Option<Sample>> {
        vec![Some(Sample::F32(r.to_bits())), Some(Sample::F32(g.to_bits()))]
    };
    let storage = Flattened::new(
        size,
        vec![pixel(1.0, 5.0), pixel(2.0, 6.0), pixel(3.0, 7.0), pixel(4.0, 8.0)],
    );
    let channels = WritableChannels {
        channel_list: ChannelList { list: vec![desc("R", SampleType::F32), desc("G", SampleType::F32)] },
        storage,
        get_pixel: FlattenedSource,
        level_mode: LevelMode::Singular,
    };
    let header = header_for(
        ChannelList { list: vec![desc("R", SampleType::F32), desc("G", SampleType::F32)] },
        size,
    );
    let block_index = BlockIndex {
        layer: 0,
        pixel_position: Vec2(0, 0),
        pixel_size: size,
        level: Vec2(0, 0),
    };
    let bytes = channels.extract_uncompressed_block(&header, block_index);
    assert_eq!(bytes, rg_block_bytes([1.0, 2.0, 3.0, 4.0], [5.0, 6.0, 7.0, 8.0]));

    // Read the same bytes back through the selection (R, G).
    let read = ReadSpecificChannels {
        channel_names: ChannelSelection { entries: vec![entry("R", true), entry("G", true)] },
        create: FlattenedCreator,
        set_pixel: FlattenedSink,
    };
    let mut reader = read.create_channels_reader(&header).unwrap();
    reader.read_block(&header, &block_at(Vec2(0, 0), size, bytes)).unwrap();
    let channels_out = reader.into_channels();

    let expected = [(1.0f32, 5.0f32), (2.0, 6.0), (3.0, 7.0), (4.0, 8.0)];
    for (i, (r, g)) in expected.iter().enumerate() {
        assert_eq!(
            channels_out.storage.samples[i],
            vec![Some(Sample::F32(r.to_bits())), Some(Sample::F32(g.to_bits()))],
            "pixel {}",
            i
        );
    }
}

#[test]
fn optional_channel_decodes_as_no_value() {
    let size = Vec2(2, 1);
    let list = ChannelList { list: vec![desc("R", SampleType::F32)] };
    let header = header_for(list, size);
    let mut data = Vec::new();
    data.extend_from_slice(&1.5f32.to_bits().to_le_bytes());
    data.extend_from_slice(&2.5f32.to_bits().to_le_bytes());

    let read = ReadSpecificChannels {
        channel_names: ChannelSelection { entries: vec![entry("R", true), entry("G", false)] },
        create: FlattenedCreator,
        set_pixel: FlattenedSink,
    };
    let mut reader = read.create_channels_reader(&header).unwrap();
    assert_eq!(reader.info.sample_types.len(), 2);
    assert_eq!(reader.info.sample_types[1], None);
    reader.read_block(&header, &block_at(Vec2(0, 0), size, data)).unwrap();
    let out = reader.into_channels();
    assert_eq!(
        out.storage.samples[0],
        vec![Some(Sample::F32(1.5f32.to_bits())), None]
    );
    assert_eq!(
        out.storage.samples[1],
        vec![Some(Sample::F32(2.5f32.to_bits())), None]
    );
}

#[test]
fn block_size_validation() {
    // Header declares 3 x F32 = 12 bytes per pixel; a 2x2 block must be
    // 48 bytes; 40 bytes is invalid and leaves the storage untouched.
    let size = Vec2(2, 2);
    let list = ChannelList {
        list: vec![desc("R", SampleType::F32), desc("G", SampleType::F32), desc("B", SampleType::F32)],
    };
    let header = header_for(list, size);
    let read = ReadSpecificChannels {
        channel_names: ChannelSelection {
            entries: vec![entry("R", true), entry("G", true), entry("B", true)],
        },
        create: FlattenedCreator,
        set_pixel: FlattenedSink,
    };
    let mut reader = read.create_channels_reader(&header).unwrap();
    let before = reader.storage.clone();
    let result = reader.read_block(&header, &block_at(Vec2(0, 0), size, vec![0u8; 40]));
    assert_eq!(result, Err(Error::InvalidBlock));
    assert_eq!(reader.storage, before);
}

#[test]
fn non_base_resolution_levels_are_filtered() {
    let size = Vec2(1, 1);
    let list = ChannelList { list: vec![desc("R", SampleType::F32)] };
    let header = header_for(list, size);
    let read = ReadSpecificChannels {
        channel_names: ChannelSelection { entries: vec![entry("R", true)] },
        create: FlattenedCreator,
        set_pixel: FlattenedSink,
    };
    let mut reader = read.create_channels_reader(&header).unwrap();
    let before = reader.storage.clone();

    let mip = TileCoordinates { tile_index: Vec2(0, 0), level_index: Vec2(1, 0) };
    let base = TileCoordinates { tile_index: Vec2(0, 0), level_index: Vec2(0, 0) };
    assert!(!reader.filter_block(&mip));
    assert!(reader.filter_block(&base));

    // The ineligible block is never handed to the decode step, whatever
    // its bytes: the storage stays exactly as it was.
    let block = block_at(Vec2(0, 0), size, vec![0xABu8; 4]);
    if reader.filter_block(&mip) {
        reader.read_block(&header, &block).unwrap();
    }
    assert_eq!(reader.storage, before);
}

#[test]
fn truncated_row_is_an_error() {
    let mut line = PixelLineReader {
        slots: vec![SlotCursor::Present { sample_type: SampleType::F32, byte_index: 0 }],
    };
    let short = [0u8, 1, 2];
    assert_eq!(line.read_next_pixel(&short), Err(Error::TruncatedRow));

    let exact = [1u8, 0, 0, 0];
    assert_eq!(
        line.read_next_pixel(&exact),
        Ok(vec![Some(Sample::F32(u32::from_le_bytes(exact)))])
    );
}

#[test]
fn f16_and_u32_samples_round_trip() {
    let size = Vec2(2, 1);
    let list = ChannelList { list: vec![desc("H", SampleType::F16), desc("N", SampleType::U32)] };
    let h0 = half::f16::from_f32(1.5);
    let h1 = half::f16::from_f32(-0.25);
    let px = |h: half::f16, n: u32| -> Vec<Option<Sample>> {
        vec![Some(Sample::F16(h.to_bits())), Some(Sample::U32(n))]
    };
    let storage = Flattened::new(size, vec![px(h0, 7), px(h1, 0xDEADBEEF)]);
    let channels = WritableChannels {
        channel_list: ChannelList { list: list.list.clone() },
        storage,
        get_pixel: FlattenedSource,
        level_mode: LevelMode::Singular,
    };
    let header = header_for(ChannelList { list: list.list.clone() }, size);
    let block_index = BlockIndex {
        layer: 0,
        pixel_position: Vec2(0, 0),
        pixel_size: size,
        level: Vec2(0, 0),
    };
    let bytes = channels.extract_uncompressed_block(&header, block_index);
    // One row: the F16 run (2 bytes per sample), then the U32 run.
    let mut expected = Vec::new();
    expected.extend_from_slice(&h0.to_bits().to_le_bytes());
    expected.extend_from_slice(&h1.to_bits().to_le_bytes());
    expected.extend_from_slice(&7u32.to_le_bytes());
    expected.extend_from_slice(&0xDEADBEEFu32.to_le_bytes());
    assert_eq!(bytes, expected);

    let read = ReadSpecificChannels {
        channel_names: ChannelSelection { entries: vec![entry("H", true), entry("N", true)] },
        create: FlattenedCreator,
        set_pixel: FlattenedSink,
    };
    let mut reader = read.create_channels_reader(&header).unwrap();
    reader.read_block(&header, &block_at(Vec2(0, 0), size, bytes)).unwrap();
    let out = reader.into_channels();
    assert_eq!(out.storage.samples[0], px(h0, 7));
    assert_eq!(out.storage.samples[1], px(h1, 0xDEADBEEF));
    assert_eq!(
        half::f16::from_bits(match out.storage.samples[0][0] {
            Some(Sample::F16(bits)) => bits,
            _ => panic!("expected a half-precision sample"),
        })
        .to_f32(),
        1.5
    );
}

#[test]
fn flattened_storage_indexing() {
    let image = Flattened::new(Vec2(3, 2), vec![10u32, 11, 12, 13, 14, 15]);
    assert_eq!(image.compute_pixel_index(Vec2(0, 0)), 0);
    assert_eq!(image.compute_pixel_index(Vec2(2, 0)), 2);
    assert_eq!(image.compute_pixel_index(Vec2(0, 1)), 3);
    assert_eq!(image.compute_pixel_index(Vec2(2, 1)), 5);
    assert_eq!(*exr_channels::get_flattened_pixel(&image, Vec2(1, 1)), 14);

    let mut image = image;
    exr_channels::set_flattened_pixel(&mut image, Vec2(1, 1), 99);
    assert_eq!(*exr_channels::get_flattened_pixel(&image, Vec2(1, 1)), 99);
    assert_eq!(*exr_channels::get_flattened_pixel(&image, Vec2(0, 1)), 13);

    let info = ChannelsInfo { sample_types: vec![], resolution: Vec2(2, 2) };
    let fresh = exr_channels::create_flattened(&info, 0u32);
    assert_eq!(fresh.size, Vec2(2, 2));
    assert_eq!(fresh.samples, vec![0u32; 4]);
}

#[test]
fn blocks_decode_at_their_own_origin() {
    // A layer of 2x2 pixels decoded from two 2x1 blocks, the second with
    // origin (0, 1): each block fills only its own rows.
    let list = ChannelList { list: vec![desc("R", SampleType::U32)] };
    let header = header_for(list, Vec2(2, 2));
    let read = ReadSpecificChannels {
        channel_names: ChannelSelection { entries: vec![entry("R", true)] },
        create: FlattenedCreator,
        set_pixel: FlattenedSink,
    };
    let mut reader = read.create_channels_reader(&header).unwrap();

    let mut top = Vec::new();
    top.extend_from_slice(&1u32.to_le_bytes());
    top.extend_from_slice(&2u32.to_le_bytes());
    let mut bottom = Vec::new();
    bottom.extend_from_slice(&3u32.to_le_bytes());
    bottom.extend_from_slice(&4u32.to_le_bytes());

    reader.read_block(&header, &block_at(Vec2(0, 1), Vec2(2, 1), bottom)).unwrap();
    reader.read_block(&header, &block_at(Vec2(0, 0), Vec2(2, 1), top)).unwrap();
    let out = reader.into_channels();
    for (i, v) in [1u32, 2, 3, 4].iter().enumerate() {
        assert_eq!(out.storage.samples[i], vec![Some(Sample::U32(*v))], "pixel {}", i);
    }
}

#[test]
fn layered_writers_dispatch_by_block_index() {
    let layer = |value: u32, size: Vec2| -> Layer<Flattened<Vec<Option<Sample>>>, FlattenedSource> {
        let count = size.0 * size.1;
        Layer {
            channel_data: WritableChannels {
                channel_list: ChannelList { list: vec![desc("R", SampleType::U32)] },
                storage: Flattened::new(
                    size,
                    (0..count).map(|i| vec![Some(Sample::U32(value + i as u32))]).collect(),
                ),
                get_pixel: FlattenedSource,
                level_mode: LevelMode::Singular,
            },
            attributes: LayerAttributes { position_x: 0, position_y: 0 },
            size,
            encoding: Encoding {
                compression: Compression::Uncompressed,
                blocks: Blocks::ScanLines,
                line_order: LineOrder::Increasing,
            },
        }
    };
    let layers = vec![layer(100, Vec2(1, 1)), layer(200, Vec2(2, 1))];
    let attrs = ImageAttributes { display_size: Vec2(2, 1) };
    let headers = layers.infer_headers(&attrs);
    assert_eq!(headers.len(), 2);
    assert_eq!(headers[0].layer_size, Vec2(1, 1));
    assert_eq!(headers[1].layer_size, Vec2(2, 1));

    let writer = layers.create_writer(&headers);
    let block = BlockIndex {
        layer: 1,
        pixel_position: Vec2(0, 0),
        pixel_size: Vec2(2, 1),
        level: Vec2(0, 0),
    };
    let bytes = writer.extract_uncompressed_block(&headers, block);
    let mut expected = Vec::new();
    expected.extend_from_slice(&200u32.to_le_bytes());
    expected.extend_from_slice(&201u32.to_le_bytes());
    assert_eq!(bytes, expected);

    let block0 = BlockIndex {
        layer: 0,
        pixel_position: Vec2(0, 0),
        pixel_size: Vec2(1, 1),
        level: Vec2(0, 0),
    };
    assert_eq!(writer.extract_uncompressed_block(&headers, block0), 100u32.to_le_bytes().to_vec());
}

#[test]
fn zero_area_blocks_decode_nothing() {
    let list = ChannelList { list: vec![desc("R", SampleType::F32)] };
    let header = header_for(list, Vec2(4, 4));
    let read = ReadSpecificChannels {
        channel_names: ChannelSelection { entries: vec![entry("R", true)] },
        create: FlattenedCreator,
        set_pixel: FlattenedSink,
    };
    let mut reader = read.create_channels_reader(&header).unwrap();
    let before = reader.storage.clone();
    reader.read_block(&header, &block_at(Vec2(0, 0), Vec2(4, 0), Vec::new())).unwrap();
    reader.read_block(&header, &block_at(Vec2(0, 0), Vec2(0, 4), Vec::new())).unwrap();
    assert_eq!(reader.storage, before);
}

#[test]
fn four_slot_selection_decodes_in_selection_order() {
    let list = ChannelList {
        list: vec![
            desc("A", SampleType::U32),
            desc("B", SampleType::U32),
            desc("C", SampleType::U32),
        ],
    };
    let header = header_for(list, Vec2(1, 1));
    // Selection order differs from list order, and one optional slot is
    // absent: the decoded pixel follows the selection, not the list.
    let read = ReadSpecificChannels {
        channel_names: ChannelSelection {
            entries: vec![entry("C", true), entry("A", true), entry("Z", false), entry("B", true)],
        },
        create: FlattenedCreator,
        set_pixel: FlattenedSink,
    };
    let mut reader = read.create_channels_reader(&header).unwrap();
    let mut data = Vec::new();
    data.extend_from_slice(&10u32.to_le_bytes());
    data.extend_from_slice(&20u32.to_le_bytes());
    data.extend_from_slice(&30u32.to_le_bytes());
    reader.read_block(&header, &block_at(Vec2(0, 0), Vec2(1, 1), data)).unwrap();
    let out = reader.into_channels();
    assert_eq!(
        out.storage.samples[0],
        vec![Some(Sample::U32(30)), Some(Sample::U32(10)), None, Some(Sample::U32(20))]
    );
}

#[test]
fn empty_channel_list_rejects_required_selection() {
    let list = ChannelList { list: vec![] };
    let selection = ChannelSelection { entries: vec![entry("R", true)] };
    assert_eq!(
        selection.resolve(&list),
        Err(Error::MissingChannel { name: b"R".to_vec() })
    );
    assert_eq!(list.bytes_per_pixel(), 0);
}

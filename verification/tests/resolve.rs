//! Tests of channel resolution, its errors, and header inference.

use exr_channels::{
    ChannelDescriptor, ChannelList, ChannelSelection, ChannelSelectionEntry, ChannelsInfo,
    Compression, Encoding, Error, FlattenedCreator, FlattenedSink, FlattenedSource, Header,
    ImageAttributes, Layer, LayerAttributes, LevelMode, LineOrder, BlockDescription, Blocks,
    ReadSpecificChannels, ResolvedChannel, SampleType, Vec2, WritableChannels, WritableLayers,
};

fn desc(name: &str, sample_type: SampleType) -> ChannelDescriptor {
    ChannelDescriptor { name: name.as_bytes().to_vec(), sample_type }
}

fn entry(name: &str, required: bool) -> ChannelSelectionEntry {
    ChannelSelectionEntry { name: name.as_bytes().to_vec(), required }
}

fn rgb_list() -> ChannelList {
    ChannelList {
        list: vec![
            desc("R", SampleType::F32),
            desc("G", SampleType::F32),
            desc("B", SampleType::F32),
        ],
    }
}

fn header_for(channels: ChannelList, size: Vec2) -> Header {
    Header {
        channels,
        compression: Compression::Uncompressed,
        blocks: BlockDescription::ScanLines,
        line_order: LineOrder::Increasing,
        layer_size: size,
        shared_attributes: ImageAttributes { display_size: size },
        own_attributes: LayerAttributes { position_x: 0, position_y: 0 },
        deep: false,
        deep_data_version: None,
        chunk_count: 0,
        max_samples_per_pixel: None,
    }
}

#[test]
fn resolution_offsets_for_rgb() {
    let selection = ChannelSelection {
        entries: vec![entry("R", true), entry("G", true), entry("B", true)],
    };
    let resolved = selection.resolve(&rgb_list()).unwrap();
    assert_eq!(resolved.len(), 3);
    assert_eq!(
        resolved[0],
        ResolvedChannel::Present { sample_type: SampleType::F32, byte_offset: 0, channel_index: 0 }
    );
    assert_eq!(
        resolved[1],
        ResolvedChannel::Present { sample_type: SampleType::F32, byte_offset: 4, channel_index: 1 }
    );
    assert_eq!(
        resolved[2],
        ResolvedChannel::Present { sample_type: SampleType::F32, byte_offset: 8, channel_index: 2 }
    );
}

#[test]
fn resolution_offsets_scale_with_row_width() {
    let selection = ChannelSelection {
        entries: vec![entry("R", true), entry("G", true), entry("B", true)],
    };
    let resolved = selection.resolve(&rgb_list()).unwrap();
    let reader = exr_channels::PixelReader { channels: resolved };
    let width = 7;
    let line = reader.create_pixel_reader_for_line(width);
    // Within a row of `width` pixels, each channel's planar run starts at
    // `byte_offset * width`.
    assert_eq!(
        line.slots[0],
        exr_channels::SlotCursor::Present { sample_type: SampleType::F32, byte_index: 0 }
    );
    assert_eq!(
        line.slots[1],
        exr_channels::SlotCursor::Present { sample_type: SampleType::F32, byte_index: 4 * width }
    );
    assert_eq!(
        line.slots[2],
        exr_channels::SlotCursor::Present { sample_type: SampleType::F32, byte_index: 8 * width }
    );
}

#[test]
fn missing_required_channel_is_an_error() {
    let selection = ChannelSelection { entries: vec![entry("R", true), entry("G", true)] };
    let list = ChannelList { list: vec![desc("R", SampleType::F32)] };
    let result = selection.resolve(&list);
    assert_eq!(result, Err(Error::MissingChannel { name: b"G".to_vec() }));

    // The reader is never constructed, so no block can ever be decoded.
    let read = ReadSpecificChannels {
        channel_names: selection,
        create: FlattenedCreator,
        set_pixel: FlattenedSink,
    };
    let header = header_for(list, Vec2(2, 2));
    let reader = read.create_channels_reader(&header);
    assert_eq!(reader.err(), Some(Error::MissingChannel { name: b"G".to_vec() }));
}

#[test]
fn optional_channel_absence_resolves() {
    let selection = ChannelSelection { entries: vec![entry("R", true), entry("G", false)] };
    let list = ChannelList { list: vec![desc("R", SampleType::F32)] };
    let resolved = selection.resolve(&list).unwrap();
    assert_eq!(resolved.len(), 2);
    assert_eq!(
        resolved[0],
        ResolvedChannel::Present { sample_type: SampleType::F32, byte_offset: 0, channel_index: 0 }
    );
    assert_eq!(resolved[1], ResolvedChannel::Absent);
}

#[test]
fn deep_layers_are_rejected() {
    let selection = ChannelSelection { entries: vec![entry("R", true)] };
    let read = ReadSpecificChannels {
        channel_names: selection,
        create: FlattenedCreator,
        set_pixel: FlattenedSink,
    };
    let mut header = header_for(ChannelList { list: vec![desc("R", SampleType::F32)] }, Vec2(1, 1));
    header.deep = true;
    let reader = read.create_channels_reader(&header);
    assert_eq!(reader.err(), Some(Error::InvalidLayer));
}

#[test]
fn idempotent_resolve() {
    let selection = ChannelSelection {
        entries: vec![entry("B", true), entry("R", true), entry("G", false)],
    };
    let first = selection.resolve(&rgb_list()).unwrap();
    let second = selection.resolve(&rgb_list()).unwrap();
    assert_eq!(first, second);

    // The resolved summaries of two identically built readers agree too.
    let make = || ReadSpecificChannels {
        channel_names: ChannelSelection {
            entries: vec![entry("B", true), entry("R", true), entry("G", false)],
        },
        create: FlattenedCreator,
        set_pixel: FlattenedSink,
    };
    let header = header_for(rgb_list(), Vec2(2, 2));
    let info_a: ChannelsInfo = make().create_channels_reader(&header).unwrap().info;
    let info_b: ChannelsInfo = make().create_channels_reader(&header).unwrap().info;
    assert_eq!(info_a, info_b);
}

#[test]
fn first_match_wins_for_duplicate_names() {
    let list = ChannelList {
        list: vec![desc("A", SampleType::F16), desc("A", SampleType::U32)],
    };
    let selection = ChannelSelection { entries: vec![entry("A", true)] };
    let resolved = selection.resolve(&list).unwrap();
    assert_eq!(
        resolved[0],
        ResolvedChannel::Present { sample_type: SampleType::F16, byte_offset: 0, channel_index: 0 }
    );
}

#[test]
fn bytes_per_pixel_sums_channel_sizes() {
    let list = ChannelList {
        list: vec![desc("H", SampleType::F16), desc("F", SampleType::F32), desc("U", SampleType::U32)],
    };
    assert_eq!(list.bytes_per_pixel(), 10);
    assert_eq!(SampleType::F16.bytes_per_sample(), 2);
    assert_eq!(SampleType::F32.bytes_per_sample(), 4);
    assert_eq!(SampleType::U32.bytes_per_sample(), 4);
}

#[test]
fn infer_headers_describes_the_layer() {
    let layer = Layer {
        channel_data: WritableChannels {
            channel_list: rgb_list(),
            storage: exr_channels::Flattened::new(Vec2(3, 2), vec![Vec::new(); 6]),
            get_pixel: FlattenedSource,
            level_mode: LevelMode::Singular,
        },
        attributes: LayerAttributes { position_x: 7, position_y: -3 },
        size: Vec2(3, 2),
        encoding: Encoding {
            compression: Compression::Zip,
            blocks: Blocks::ScanLines,
            line_order: LineOrder::Increasing,
        },
    };
    let attrs = ImageAttributes { display_size: Vec2(3, 2) };
    let headers = layer.infer_headers(&attrs);
    assert_eq!(headers.len(), 1);
    let header = &headers[0];
    assert_eq!(header.channels, rgb_list());
    assert_eq!(header.compression, Compression::Zip);
    assert_eq!(header.blocks, BlockDescription::ScanLines);
    assert_eq!(header.layer_size, Vec2(3, 2));
    assert_eq!(header.shared_attributes, attrs);
    assert_eq!(header.own_attributes, LayerAttributes { position_x: 7, position_y: -3 });
    assert!(!header.deep);
    assert_eq!(header.deep_data_version, None);
    assert_eq!(header.chunk_count, 0);
    assert_eq!(header.max_samples_per_pixel, None);
}

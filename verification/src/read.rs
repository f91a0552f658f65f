//! Reading a specific selection of channels out of decoded blocks into a
//! caller-supplied pixel storage.
//!
//! The caller declares a `ChannelSelection` and two capabilities: a
//! factory that allocates one storage per layer, and a sink that stores
//! one decoded pixel at one position. Resolution happens once per layer;
//! each eligible block is then decoded row by row, pixel by pixel, in
//! row-major order.

use vstd::prelude::*;
use vstd::slice::slice_subrange;
use crate::samples::{Sample, spec_bytes_per_sample};
use crate::channels::{
    ChannelDescriptor, ChannelList, ChannelSelection, ResolvedChannel, spec_bytes_per_pixel,
    spec_find_channel, spec_first_missing, spec_offset_of, spec_resolve_slot,
    lemma_bytes_per_pixel_prefix,
};
use crate::cursor::{
    PixelLineReader, PixelReader, SlotCursor, spec_cursor_at, spec_slot_advanced,
    spec_slot_compatible, spec_slot_in_bounds, spec_slot_start_fits, spec_slot_value,
    lemma_slot_within_pixel,
};
use crate::meta::{Header, TileCoordinates, UncompressedBlock};
use crate::{Error, Vec2};

verus! {

/// A summary of the resolved channels of one layer. Carries no pixel
/// data; it is what the storage factory sees.
#[derive(Clone, PartialEq, Eq, Debug)]
pub struct ChannelsInfo {
    /// Per selection slot, the descriptor of the matched channel, or
    /// `None` for an unmatched optional slot.
    pub sample_types: Vec<Option<ChannelDescriptor>>,
    /// The dimensions of the layer, width and height.
    pub resolution: Vec2,
}

/// How to create one pixel storage per layer. Called exactly once per
/// layer, before any block of that layer is decoded.
pub trait CreatePixels: Sized {
    /// The caller's storage type.
    type Pixels;

    /// What this factory asks of the layer's resolution before it can
    /// allocate (a machine bound, such as the pixel count fitting the
    /// machine's word).
    spec fn create_req(&self, resolution: Vec2) -> bool;

    /// What this factory promises of a storage it created for `info`.
    spec fn created_ok(&self, info: &ChannelsInfo, r: &Self::Pixels) -> bool;

    /// Creates the storage for one layer.
    fn create(&self, info: &ChannelsInfo) -> (r: Self::Pixels)
        requires
            self.create_req(info.resolution),
        ensures
            self.created_ok(info, &r),
    ;
}

/// How to store one decoded pixel in the caller's storage. Called exactly
/// once per pixel, in row-major order, for every pixel of every eligible
/// block.
pub trait SetPixel<Storage>: Sized {
    /// How a storage after one store relates to the storage before it.
    spec fn set_ok(
        &self,
        old_storage: Storage,
        new_storage: Storage,
        position: Vec2,
        pixel: Seq<Option<Sample>>,
    ) -> bool;

    /// Stores one decoded pixel, one present-or-absent sample per
    /// selection slot, at one absolute position.
    fn set_pixel(&self, pixels: &mut Storage, position: Vec2, pixel: Vec<Option<Sample>>)
        ensures
            self.set_ok(*old(pixels), *final(pixels), position, pixel@),
    ;
}

/// Specify to load only some channels, and how to store the result.
#[derive(Clone, PartialEq, Eq, Debug)]
pub struct ReadSpecificChannels<Create, Sink> {
    /// The requested channels, in the order the caller wants them.
    pub channel_names: ChannelSelection,
    /// Creates one pixel storage per layer.
    pub create: Create,
    /// Writes the decoded pixels into the caller's storage.
    pub set_pixel: Sink,
}

/// Processes the pixel blocks of one layer and accumulates them into the
/// caller's storage.
pub struct SpecificChannelsReader<Storage, Sink> {
    /// The caller's storage, owned by this reader until the layer is done.
    pub storage: Storage,
    /// The caller's pixel sink.
    pub set_pixel: Sink,
    /// The resolved summary handed to the storage factory.
    pub info: ChannelsInfo,
    /// The resolved selection, the template for each row's line reader.
    pub pixel_reader: PixelReader,
}

/// The channel data of one finished layer: the resolved descriptors and
/// the storage the caller's capabilities filled.
#[derive(Clone, PartialEq, Eq, Debug)]
pub struct SpecificChannels<Storage> {
    /// Per selection slot, the matched channel's descriptor, if any.
    pub channels: Vec<Option<ChannelDescriptor>>,
    /// The filled storage.
    pub storage: Storage,
}

/// Whether `od` is the descriptor of the first channel of `list` named
/// `name`, or `None` when there is no such channel.
pub open spec fn spec_slot_descriptor_ok(
    list: Seq<ChannelDescriptor>,
    name: Seq<u8>,
    od: Option<ChannelDescriptor>,
) -> bool {
    match spec_find_channel(list, name) {
        Some(i) => match od {
            Some(d) => d.name@ == list[i].name@ && d.sample_type == list[i].sample_type,
            None => false,
        },
        None => od is None,
    }
}

/// Whether every resolved slot describes a channel of `list`.
pub open spec fn spec_reader_compatible(
    channels: Seq<ResolvedChannel>,
    list: Seq<ChannelDescriptor>,
) -> bool {
    forall|j: int| 0 <= j < channels.len() ==> spec_slot_compatible(channels[j], list)
}

/// A found channel's index is in range and its name is the one sought.
pub proof fn lemma_find_channel_in_range(list: Seq<ChannelDescriptor>, name: Seq<u8>)
    ensures
        match spec_find_channel(list, name) {
            Some(i) => 0 <= i < list.len() && list[i].name@ == name,
            None => true,
        },
    decreases list.len(),
{
    if list.len() > 0 && list[0].name@ != name {
        lemma_find_channel_in_range(list.drop_first(), name);
    }
}

/// A slot resolved against `list` describes a channel of `list`.
pub proof fn lemma_resolve_slot_compatible(list: Seq<ChannelDescriptor>, name: Seq<u8>)
    requires
        spec_bytes_per_pixel(list) <= usize::MAX,
        list.len() <= usize::MAX,
    ensures
        spec_slot_compatible(spec_resolve_slot(list, name), list),
{
    lemma_find_channel_in_range(list, name);
    match spec_find_channel(list, name) {
        Some(i) => {
            lemma_bytes_per_pixel_prefix(list, i);
        },
        None => {},
    }
}

impl ChannelSelection {
    /// Resolves this selection against a layer's channel list and turns
    /// the outcome into the two resolved views of one layer: the per-slot
    /// descriptor summary, and the pixel-reader template the block decoder
    /// works from. Fails with `MissingChannel`, naming the first such
    /// entry, exactly when a required entry matches no channel.
    pub fn inspect_channels(&self, channels: &ChannelList) -> (r: Result<
        (Vec<Option<ChannelDescriptor>>, PixelReader),
        Error,
    >)
        requires
            channels.wf(),
        ensures
            match r {
                Ok(resolved) => {
                    &&& spec_first_missing(channels.list@, self.entries@) is None
                    &&& resolved.0@.len() == self.entries@.len()
                    &&& forall|j: int|
                        0 <= j < resolved.0@.len() ==> spec_slot_descriptor_ok(
                            channels.list@,
                            self.entries@[j].name@,
                            resolved.0@[j],
                        )
                    &&& resolved.1.channels@.len() == self.entries@.len()
                    &&& forall|j: int|
                        0 <= j < resolved.1.channels@.len() ==> resolved.1.channels@[j]
                            == spec_resolve_slot(channels.list@, self.entries@[j].name@)
                    &&& spec_reader_compatible(resolved.1.channels@, channels.list@)
                },
                Err(e) => {
                    &&& spec_first_missing(channels.list@, self.entries@) matches Some(j)
                        && crate::is_missing_channel(e, self.entries@[j].name@)
                },
            },
    {
        let list_len = channels.list.len();
        proof {
            assert(channels.list@.len() == list_len);
        }
        let resolved = match self.resolve(channels) {
            Ok(resolved) => resolved,
            Err(e) => {
                return Err(e);
            },
        };

        let n = resolved.len();
        let mut sample_types: Vec<Option<ChannelDescriptor>> = Vec::new();
        let mut j: usize = 0;
        while j < n
            invariant
                channels.wf(),
                channels.list@.len() <= usize::MAX,
                n == resolved@.len(),
                n == self.entries@.len(),
                j <= n,
                sample_types@.len() == j,
                forall|k: int|
                    0 <= k < n ==> resolved@[k] == spec_resolve_slot(
                        channels.list@,
                        self.entries@[k].name@,
                    ),
                forall|k: int|
                    0 <= k < j ==> spec_slot_descriptor_ok(
                        channels.list@,
                        self.entries@[k].name@,
                        sample_types@[k],
                    ),
            decreases n - j,
        {
            proof {
                lemma_find_channel_in_range(channels.list@, self.entries@[j as int].name@);
            }
            let slot = match resolved[j] {
                ResolvedChannel::Present { sample_type, byte_offset, channel_index } => Some(
                    channels.list[channel_index].duplicate(),
                ),
                ResolvedChannel::Absent => None,
            };
            sample_types.push(slot);
            j = j + 1;
        }
        proof {
            assert forall|k: int| 0 <= k < n implies spec_slot_compatible(
                resolved@[k],
                channels.list@,
            ) by {
                lemma_resolve_slot_compatible(channels.list@, self.entries@[k].name@);
            }
        }
        Ok((sample_types, PixelReader { channels: resolved }))
    }
}

impl<Create: CreatePixels, Sink: SetPixel<Create::Pixels>> ReadSpecificChannels<Create, Sink> {
    /// Sets one layer up for reading: rejects deep layers, resolves the
    /// selection against the layer's channel list, and creates the
    /// caller's storage from the resolved summary. Fails with
    /// `InvalidLayer` exactly when the layer is deep, and with
    /// `MissingChannel` exactly when a required entry matches no channel;
    /// no storage is created on failure.
    pub fn create_channels_reader(self, header: &Header) -> (r: Result<
        SpecificChannelsReader<Create::Pixels, Sink>,
        Error,
    >)
        requires
            header.channels.wf(),
            self.create.create_req(header.layer_size),
        ensures
            match r {
                Ok(reader) => {
                    &&& !header.deep
                    &&& spec_first_missing(header.channels.list@, self.channel_names.entries@)
                        is None
                    &&& reader.info.resolution == header.layer_size
                    &&& reader.info.sample_types@.len() == self.channel_names.entries@.len()
                    &&& forall|j: int|
                        0 <= j < reader.info.sample_types@.len() ==> spec_slot_descriptor_ok(
                            header.channels.list@,
                            self.channel_names.entries@[j].name@,
                            reader.info.sample_types@[j],
                        )
                    &&& reader.pixel_reader.channels@.len()
                        == self.channel_names.entries@.len()
                    &&& forall|j: int|
                        0 <= j < reader.pixel_reader.channels@.len()
                            ==> reader.pixel_reader.channels@[j] == spec_resolve_slot(
                            header.channels.list@,
                            self.channel_names.entries@[j].name@,
                        )
                    &&& spec_reader_compatible(
                        reader.pixel_reader.channels@,
                        header.channels.list@,
                    )
                    &&& self.create.created_ok(&reader.info, &reader.storage)
                    &&& reader.set_pixel == self.set_pixel
                },
                Err(e) => {
                    &&& header.deep ==> e == Error::InvalidLayer
                    &&& !header.deep ==> (spec_first_missing(
                        header.channels.list@,
                        self.channel_names.entries@,
                    ) matches Some(j) && crate::is_missing_channel(
                        e,
                        self.channel_names.entries@[j].name@,
                    ))
                },
            },
    {
        if header.deep {
            return Err(Error::InvalidLayer);
        }
        let (sample_types, pixel_reader) = match self.channel_names.inspect_channels(
            &header.channels,
        ) {
            Ok(resolved) => resolved,
            Err(e) => {
                return Err(e);
            },
        };
        let info = ChannelsInfo { sample_types, resolution: header.layer_size };
        let storage = self.create.create(&info);
        Ok(
            SpecificChannelsReader {
                storage,
                set_pixel: self.set_pixel,
                info,
                pixel_reader,
            },
        )
    }
}

/// The decoded pixel of one column: per selection slot, the sample the
/// slot's cursor yields at column `x` of a row of `width` pixels.
pub open spec fn spec_pixel_at(
    resolved: Seq<ResolvedChannel>,
    row: Seq<u8>,
    width: nat,
    x: int,
) -> Seq<Option<Sample>> {
    Seq::new(resolved.len(), |j: int| spec_slot_value(spec_cursor_at(resolved[j], width, x), row))
}

/// Row `y` of a block whose rows are `width * bpp` bytes long.
pub open spec fn spec_row_of(data: Seq<u8>, width: nat, bpp: nat, y: int) -> Seq<u8> {
    data.subrange(y * (width * bpp), (y + 1) * (width * bpp))
}

/// The `k`-th decoded pixel of a block, in row-major order: its absolute
/// position and its per-slot samples.
pub open spec fn spec_block_pixel(
    resolved: Seq<ResolvedChannel>,
    data: Seq<u8>,
    origin: Vec2,
    width: nat,
    bpp: nat,
    k: int,
) -> (Vec2, Seq<Option<Sample>>) {
    let y = k / width as int;
    let x = k % width as int;
    (
        Vec2((origin.0 + x) as usize, (origin.1 + y) as usize),
        spec_pixel_at(resolved, spec_row_of(data, width, bpp, y), width, x),
    )
}

/// All decoded pixels of a block, in the order they are stored: top to
/// bottom, left to right.
pub open spec fn spec_block_pixels(
    resolved: Seq<ResolvedChannel>,
    data: Seq<u8>,
    origin: Vec2,
    width: nat,
    height: nat,
    bpp: nat,
) -> Seq<(Vec2, Seq<Option<Sample>>)> {
    Seq::new((width * height) as nat, |k: int| spec_block_pixel(resolved, data, origin, width, bpp, k))
}

/// Whether `states` witnesses that storing `pixels` through `set`, one
/// by one and in order, turns the first state into the last.
pub open spec fn spec_apply_states<Storage, Sink: SetPixel<Storage>>(
    set: Sink,
    s0: Storage,
    s1: Storage,
    states: Seq<Storage>,
    pixels: Seq<(Vec2, Seq<Option<Sample>>)>,
) -> bool {
    &&& states.len() == pixels.len() + 1
    &&& states.first() == s0
    &&& states.last() == s1
    &&& forall|i: int|
        0 <= i < pixels.len() ==> set.set_ok(
            #[trigger] states[i],
            states[i + 1],
            pixels[i].0,
            pixels[i].1,
        )
}

/// Whether `s1` is `s0` after storing `pixels` through `set`, one by one,
/// in order: some sequence of intermediate storages witnesses each store.
pub open spec fn spec_apply_chain<Storage, Sink: SetPixel<Storage>>(
    set: Sink,
    s0: Storage,
    s1: Storage,
    pixels: Seq<(Vec2, Seq<Option<Sample>>)>,
) -> bool {
    exists|states: Seq<Storage>| spec_apply_states(set, s0, s1, states, pixels)
}

/// Storing nothing changes nothing.
pub proof fn lemma_apply_chain_empty<Storage, Sink: SetPixel<Storage>>(
    set: Sink,
    s0: Storage,
    pixels: Seq<(Vec2, Seq<Option<Sample>>)>,
)
    requires
        pixels.len() == 0,
    ensures
        spec_apply_chain(set, s0, s0, pixels),
{
    let states = seq![s0];
    assert(spec_apply_states(set, s0, s0, states, pixels));
}

/// Extends an apply chain by one stored pixel.
pub proof fn lemma_apply_chain_push<Storage, Sink: SetPixel<Storage>>(
    set: Sink,
    s0: Storage,
    mid: Storage,
    s1: Storage,
    pixels: Seq<(Vec2, Seq<Option<Sample>>)>,
    p: (Vec2, Seq<Option<Sample>>),
)
    requires
        spec_apply_chain(set, s0, mid, pixels),
        set.set_ok(mid, s1, p.0, p.1),
    ensures
        spec_apply_chain(set, s0, s1, pixels.push(p)),
{
    let states = choose|st: Seq<Storage>| spec_apply_states(set, s0, mid, st, pixels);
    let states2 = states.push(s1);
    let pixels2 = pixels.push(p);
    assert(states2.last() == s1);
    assert(states2.first() == s0);
    assert forall|i: int|
        0 <= i < pixels2.len() implies set.set_ok(
            #[trigger] states2[i],
            states2[i + 1],
            pixels2[i].0,
            pixels2[i].1,
        ) by {
        if i < pixels.len() {
            assert(pixels2[i] == pixels[i]);
            assert(states2[i] == states[i]);
            assert(states2[i + 1] == states[i + 1]);
        } else {
            assert(pixels2[i] == p);
            assert(states2[i] == states.last());
            assert(states2[i + 1] == s1);
        }
    }
    assert(spec_apply_states(set, s0, s1, states2, pixels2));
}

/// A present slot's sample at column `x` lies within the row.
proof fn lemma_slot_read_in_bounds(o: nat, bps: nat, bpp: nat, w: nat, x: nat)
    requires
        o + bps <= bpp,
        x < w,
    ensures
        o * w + x * bps + bps <= w * bpp,
        o * w + (x + 1) * bps <= w * bpp,
{
    assert(o * w + x * bps + bps <= w * bpp && o * w + (x + 1) * bps <= w * bpp)
        by (nonlinear_arith)
        requires
            o + bps <= bpp,
            x < w,
    ;
}

impl<Storage, Sink: SetPixel<Storage>> SpecificChannelsReader<Storage, Sink> {
    /// A block is eligible for decoding exactly when it belongs to the
    /// base (largest) resolution level; this core does not support
    /// multi-resolution image pyramids.
    pub fn filter_block(&self, tile: &TileCoordinates) -> (r: bool)
        ensures
            r == tile.spec_is_largest_resolution_level(),
    {
        tile.is_largest_resolution_level()
    }

    /// Hands the accumulated channel data to the caller, once every
    /// eligible block of the layer has been processed.
    pub fn into_channels(self) -> (r: SpecificChannels<Storage>)
        ensures
            r.channels == self.info.sample_types,
            r.storage == self.storage,
    {
        SpecificChannels { channels: self.info.sample_types, storage: self.storage }
    }

    /// Decodes one block into the caller's storage. Fails with
    /// `InvalidBlock`, leaving the storage untouched, exactly when the
    /// block's byte length is not `bytes per pixel x width x height`.
    /// On success the storage has absorbed every pixel of the block, in
    /// row-major order, through the caller's sink.
    pub fn read_block(&mut self, header: &Header, block: &UncompressedBlock) -> (r: Result<
        (),
        Error,
    >)
        requires
            header.channels.wf(),
            spec_reader_compatible(old(self).pixel_reader.channels@, header.channels.list@),
            block.index.pixel_size.spec_area() <= usize::MAX,
            block.index.pixel_position.0 + block.index.pixel_size.0 <= old(
                self,
            ).info.resolution.0,
            block.index.pixel_position.1 + block.index.pixel_size.1 <= old(
                self,
            ).info.resolution.1,
        ensures
            final(self).set_pixel == old(self).set_pixel,
            final(self).info == old(self).info,
            final(self).pixel_reader == old(self).pixel_reader,
            match r {
                Ok(()) => {
                    &&& block.data@.len() == spec_bytes_per_pixel(header.channels.list@)
                        * block.index.pixel_size.0 * block.index.pixel_size.1
                    &&& spec_apply_chain(
                        old(self).set_pixel,
                        old(self).storage,
                        final(self).storage,
                        spec_block_pixels(
                            old(self).pixel_reader.channels@,
                            block.data@,
                            block.index.pixel_position,
                            block.index.pixel_size.0 as nat,
                            block.index.pixel_size.1 as nat,
                            spec_bytes_per_pixel(header.channels.list@),
                        ),
                    )
                },
                Err(e) => {
                    &&& e == Error::InvalidBlock
                    &&& block.data@.len() != spec_bytes_per_pixel(header.channels.list@)
                        * block.index.pixel_size.0 * block.index.pixel_size.1
                    &&& final(self).storage == old(self).storage
                },
            },
    {
        let w = block.index.pixel_size.0;
        let h = block.index.pixel_size.1;
        let ghost bpp_s = spec_bytes_per_pixel(header.channels.list@);
        let bpp = header.channels.bytes_per_pixel();
        let data_len = block.data.len();
        proof {
            assert(block.data@.len() == data_len);
        }

        let area = w * h;
        let expected = match bpp.checked_mul(area) {
            Some(expected) => expected,
            None => {
                proof {
                    assert(bpp_s * w * h != block.data@.len()) by (nonlinear_arith)
                        requires
                            bpp_s * (w * h) > usize::MAX,
                            block.data@.len() <= usize::MAX,
                    ;
                }
                return Err(Error::InvalidBlock);
            },
        };
        if expected != block.data.len() {
            proof {
                assert(bpp_s * w * h == bpp_s * (w * h)) by (nonlinear_arith);
            }
            return Err(Error::InvalidBlock);
        }
        proof {
            assert(bpp_s * w * h == bpp_s * (w * h)) by (nonlinear_arith);
        }

        if h == 0 {
            proof {
                assert(w * h == 0) by (nonlinear_arith)
                    requires
                        h == 0,
                ;
                let pixels = spec_block_pixels(
                    self.pixel_reader.channels@,
                    block.data@,
                    block.index.pixel_position,
                    w as nat,
                    h as nat,
                    bpp_s,
                );
                assert(pixels.len() == 0);
                lemma_apply_chain_empty(self.set_pixel, self.storage, pixels);
            }
            return Ok(());
        }

        // One row is `w * bpp` bytes; with at least one row, that fits.
        proof {
            assert(w * bpp <= bpp * (w * h)) by (nonlinear_arith)
                requires
                    h >= 1,
                    w >= 0,
                    bpp >= 0,
            ;
        }
        let line_bytes = w * bpp;

        let ghost resolved = self.pixel_reader.channels@;
        let ghost origin = block.index.pixel_position;
        let ghost pixels = spec_block_pixels(resolved, block.data@, origin, w as nat, h as nat, bpp_s);
        let ghost set = self.set_pixel;
        let ghost storage0 = self.storage;
        proof {
            assert(pixels.take(0) =~= Seq::<(Vec2, Seq<Option<Sample>>)>::empty());
            lemma_apply_chain_empty(set, storage0, pixels.take(0));
        }

        let mut y: usize = 0;
        while y < h
            invariant
                y <= h,
                h >= 1,
                w == block.index.pixel_size.0,
                h == block.index.pixel_size.1,
                line_bytes == w * bpp,
                bpp == bpp_s,
                bpp_s == spec_bytes_per_pixel(header.channels.list@),
                block.data@.len() == bpp_s * (w * h),
                block.data@.len() <= usize::MAX,
                block.data@.len() == bpp_s * w * h,
                origin == block.index.pixel_position,
                origin.0 + w <= usize::MAX,
                origin.1 + h <= usize::MAX,
                header.channels.wf(),
                self.pixel_reader.channels@ == resolved,
                spec_reader_compatible(resolved, header.channels.list@),
                self.set_pixel == set,
                self.info == old(self).info,
                self.pixel_reader == old(self).pixel_reader,
                set == old(self).set_pixel,
                storage0 == old(self).storage,
                pixels == spec_block_pixels(resolved, block.data@, origin, w as nat, h as nat, bpp_s),
                pixels.len() == w * h,
                spec_apply_chain(set, storage0, self.storage, pixels.take(y * w)),
            decreases h - y,
        {
            proof {
                assert((y + 1) * line_bytes <= bpp_s * (w * h) && y * line_bytes + line_bytes == (y
                    + 1) * line_bytes && y * line_bytes == y * (w * bpp_s) && (y + 1) * line_bytes
                    == (y + 1) * (w * bpp_s)) by (nonlinear_arith)
                    requires
                        y < h,
                        line_bytes == w * bpp_s,
                        bpp_s >= 0,
                        w >= 0,
                ;
                assert forall|j: int| 0 <= j < resolved.len() implies spec_slot_start_fits(
                    resolved[j],
                    w as nat,
                ) by {
                    match resolved[j] {
                        ResolvedChannel::Present { sample_type, byte_offset, channel_index } => {
                            lemma_slot_within_pixel(resolved[j], header.channels.list@);
                            assert(byte_offset * w <= w * bpp_s) by (nonlinear_arith)
                                requires
                                    byte_offset <= bpp_s,
                                    w >= 0,
                            ;
                        },
                        ResolvedChannel::Absent => {},
                    }
                }
            }
            let row_start = y * line_bytes;
            let row = slice_subrange(block.data.as_slice(), row_start, row_start + line_bytes);
            let ghost row_s = spec_row_of(block.data@, w as nat, bpp_s, y as int);
            proof {
                assert(row@ =~= row_s);
            }

            let mut line_reader = self.pixel_reader.create_pixel_reader_for_line(w);

            let mut x: usize = 0;
            while x < w
                invariant
                    x <= w,
                    y < h,
                    h >= 1,
                    w == block.index.pixel_size.0,
                    h == block.index.pixel_size.1,
                    line_bytes == w * bpp,
                    bpp == bpp_s,
                    bpp_s == spec_bytes_per_pixel(header.channels.list@),
                    block.data@.len() == bpp_s * (w * h),
                    block.data@.len() <= usize::MAX,
                    block.data@.len() == bpp_s * w * h,
                    origin == block.index.pixel_position,
                    origin.0 + w <= usize::MAX,
                    origin.1 + h <= usize::MAX,
                    header.channels.wf(),
                    self.pixel_reader.channels@ == resolved,
                    spec_reader_compatible(resolved, header.channels.list@),
                    self.set_pixel == set,
                    self.info == old(self).info,
                    self.pixel_reader == old(self).pixel_reader,
                    set == old(self).set_pixel,
                    storage0 == old(self).storage,
                    pixels == spec_block_pixels(resolved, block.data@, origin, w as nat, h as nat, bpp_s),
                    pixels.len() == w * h,
                    row_s == spec_row_of(block.data@, w as nat, bpp_s, y as int),
                    row@ == row_s,
                    row@.len() == line_bytes,
                    line_reader.slots@.len() == resolved.len(),
                    forall|j: int|
                        0 <= j < resolved.len() ==> line_reader.slots@[j] == spec_cursor_at(
                            resolved[j],
                            w as nat,
                            x as int,
                        ),
                    spec_apply_chain(set, storage0, self.storage, pixels.take(y * w + x)),
                decreases w - x,
            {
                proof {
                    assert forall|j: int| 0 <= j < resolved.len() implies spec_slot_in_bounds(
                        line_reader.slots@[j],
                        row@.len(),
                    ) by {
                        match resolved[j] {
                            ResolvedChannel::Present {
                                sample_type,
                                byte_offset,
                                channel_index,
                            } => {
                                lemma_slot_within_pixel(resolved[j], header.channels.list@);
                                lemma_slot_read_in_bounds(
                                    byte_offset as nat,
                                    spec_bytes_per_sample(sample_type),
                                    bpp_s,
                                    w as nat,
                                    x as nat,
                                );
                            },
                            ResolvedChannel::Absent => {},
                        }
                    }
                }
                let px = match line_reader.read_next_pixel(row) {
                    Ok(px) => px,
                    Err(_) => {
                        proof {
                            assert(false);
                        }
                        return Err(Error::InvalidBlock);
                    },
                };
                let ghost k = y * w + x;
                proof {
                    // The pixel read equals the k-th pixel of the block.
                    assert(k / w as int == y as int && k % w as int == x as int)
                        by (nonlinear_arith)
                        requires
                            k == y * w + x,
                            0 <= x < w,
                            0 <= y,
                    ;
                    assert(k < pixels.len()) by (nonlinear_arith)
                        requires
                            k == y * w + x,
                            0 <= x < w,
                            0 <= y < h,
                            pixels.len() == w * h,
                    ;
                    assert(px@ =~= pixels[k].1);
                }
                let position = Vec2(
                    block.index.pixel_position.0 + x,
                    block.index.pixel_position.1 + y,
                );
                let ghost mid = self.storage;
                self.set_pixel.set_pixel(&mut self.storage, position, px);
                proof {
                    assert(position == pixels[k].0);
                    lemma_apply_chain_push(
                        set,
                        storage0,
                        mid,
                        self.storage,
                        pixels.take(k),
                        pixels[k],
                    );
                    assert(pixels.take(k).push(pixels[k]) =~= pixels.take(k + 1));
                    // The advanced cursors are the column-(x + 1) cursors.
                    assert forall|j: int| 0 <= j < resolved.len() implies spec_slot_advanced(
                        spec_cursor_at(resolved[j], w as nat, x as int),
                    ) == spec_cursor_at(resolved[j], w as nat, x + 1) by {
                        match resolved[j] {
                            ResolvedChannel::Present {
                                sample_type,
                                byte_offset,
                                channel_index,
                            } => {
                                lemma_slot_within_pixel(resolved[j], header.channels.list@);
                                lemma_slot_read_in_bounds(
                                    byte_offset as nat,
                                    spec_bytes_per_sample(sample_type),
                                    bpp_s,
                                    w as nat,
                                    x as nat,
                                );
                                assert(byte_offset * w + x * spec_bytes_per_sample(sample_type)
                                    + spec_bytes_per_sample(sample_type) == byte_offset * w + (x
                                    + 1) * spec_bytes_per_sample(sample_type))
                                    by (nonlinear_arith)
                                ;
                            },
                            ResolvedChannel::Absent => {},
                        }
                    }
                }
                x = x + 1;
            }
            proof {
                assert(y * w + w == (y + 1) * w) by (nonlinear_arith);
            }
            y = y + 1;
        }
        proof {
            assert(pixels.take(h as int * w as int) =~= pixels);
        }
        Ok(())
    }
}

} // verus!

//! Writing layers: inferring one header per layer and extracting the
//! channel-planar bytes of one block from a caller-supplied pixel
//! storage, the mirror of the read path.

use vstd::prelude::*;
use crate::samples::{Sample, SampleType, spec_bytes_per_sample, spec_sample_to_bytes};
use crate::channels::{
    ChannelDescriptor, ChannelList, spec_bytes_per_pixel, spec_offset_of, lemma_offset_step,
};
use crate::meta::{
    BlockDescription, BlockIndex, Blocks, Encoding, Header, ImageAttributes, LayerAttributes,
    LevelMode, TileDescription,
};
use crate::Vec2;

verus! {

/// How to read one pixel out of the caller's storage. Called exactly
/// once per pixel, in row-major order, for every pixel of a requested
/// block.
pub trait GetPixel<Storage>: Sized {
    /// What this source asks of a lookup (a machine bound, or that the
    /// position lies within the storage).
    spec fn get_req(&self, pixels: Storage, position: Vec2) -> bool;

    /// The pixel this source yields at `position`: one present-or-absent
    /// sample per channel slot.
    spec fn spec_get(&self, pixels: Storage, position: Vec2) -> Seq<Option<Sample>>;

    /// Reads one pixel at one absolute position.
    fn get_pixel(&self, pixels: &Storage, position: Vec2) -> (r: Vec<Option<Sample>>)
        requires
            self.get_req(*pixels, position),
        ensures
            r@ == self.spec_get(*pixels, position),
    ;
}

/// Whether `os` holds a sample of encoding `t`.
pub open spec fn spec_sample_matches(os: Option<Sample>, t: SampleType) -> bool {
    match os {
        Some(s) => s.is_of_type(t),
        None => false,
    }
}

/// Whether one pixel supplies one sample of the declared encoding for
/// every channel of `list`.
pub open spec fn spec_pixel_matches(px: Seq<Option<Sample>>, list: Seq<ChannelDescriptor>) -> bool {
    &&& px.len() == list.len()
    &&& forall|j: int|
        0 <= j < list.len() ==> spec_sample_matches(#[trigger] px[j], list[j].sample_type)
}

/// The absolute position of column `x`, row `y` of a block at `origin`.
pub open spec fn spec_position(origin: Vec2, x: int, y: int) -> Vec2 {
    Vec2((origin.0 + x) as usize, (origin.1 + y) as usize)
}

/// Whether the source can be read at column `x`, row `y`, and yields a
/// pixel matching the channel list there.
pub open spec fn spec_source_pixel_ok<Storage, Source: GetPixel<Storage>>(
    get: Source,
    pixels: Storage,
    list: Seq<ChannelDescriptor>,
    origin: Vec2,
    x: int,
    y: int,
) -> bool {
    &&& get.get_req(pixels, spec_position(origin, x, y))
    &&& spec_pixel_matches(get.spec_get(pixels, spec_position(origin, x, y)), list)
}

/// Whether the source supplies a matching pixel at every position of the
/// block at `origin` of size `size`.
pub open spec fn spec_source_ok<Storage, Source: GetPixel<Storage>>(
    get: Source,
    pixels: Storage,
    list: Seq<ChannelDescriptor>,
    origin: Vec2,
    size: Vec2,
) -> bool {
    forall|x: int, y: int|
        0 <= x < size.0 && 0 <= y < size.1 ==> spec_source_pixel_ok(
            get,
            pixels,
            list,
            origin,
            x,
            y,
        )
}

/// The bytes of channel `j`'s planar run in row `y`, over the first `x`
/// columns: each sample's bytes, one column after another.
pub open spec fn spec_run<Storage, Source: GetPixel<Storage>>(
    get: Source,
    pixels: Storage,
    list: Seq<ChannelDescriptor>,
    origin: Vec2,
    y: int,
    j: int,
    x: int,
) -> Seq<u8>
    decreases x,
{
    if x <= 0 {
        Seq::empty()
    } else {
        spec_run(get, pixels, list, origin, y, j, x - 1) + spec_sample_to_bytes(
            get.spec_get(pixels, spec_position(origin, x - 1, y))[j].unwrap(),
        )
    }
}

/// The bytes of row `y`: the planar runs of the first `j` channels, one
/// channel after another, each `width` samples long.
pub open spec fn spec_row_built<Storage, Source: GetPixel<Storage>>(
    get: Source,
    pixels: Storage,
    list: Seq<ChannelDescriptor>,
    origin: Vec2,
    width: int,
    y: int,
    j: int,
) -> Seq<u8>
    decreases j,
{
    if j <= 0 {
        Seq::empty()
    } else {
        spec_row_built(get, pixels, list, origin, width, y, j - 1) + spec_run(
            get,
            pixels,
            list,
            origin,
            y,
            j - 1,
            width,
        )
    }
}

/// The bytes of the first `y` rows of a block, top to bottom.
pub open spec fn spec_encoded_rows<Storage, Source: GetPixel<Storage>>(
    get: Source,
    pixels: Storage,
    list: Seq<ChannelDescriptor>,
    origin: Vec2,
    width: int,
    y: int,
) -> Seq<u8>
    decreases y,
{
    if y <= 0 {
        Seq::empty()
    } else {
        spec_encoded_rows(get, pixels, list, origin, width, y - 1) + spec_row_built(
            get,
            pixels,
            list,
            origin,
            width,
            y - 1,
            list.len() as int,
        )
    }
}

/// The bytes of one whole block: `size.1` rows of `size.0` pixels,
/// channel-planar within each row, in the layer's channel order.
pub open spec fn spec_encoded_block<Storage, Source: GetPixel<Storage>>(
    get: Source,
    pixels: Storage,
    list: Seq<ChannelDescriptor>,
    origin: Vec2,
    size: Vec2,
) -> Seq<u8> {
    spec_encoded_rows(get, pixels, list, origin, size.0 as int, size.1 as int)
}

/// A channel run over `x` columns is `x` samples of the channel's byte
/// size long.
pub proof fn lemma_run_len<Storage, Source: GetPixel<Storage>>(
    get: Source,
    pixels: Storage,
    list: Seq<ChannelDescriptor>,
    origin: Vec2,
    size: Vec2,
    y: int,
    j: int,
    x: int,
)
    requires
        spec_source_ok(get, pixels, list, origin, size),
        0 <= j < list.len(),
        0 <= y < size.1,
        0 <= x <= size.0,
    ensures
        spec_run(get, pixels, list, origin, y, j, x).len() == x * spec_bytes_per_sample(
            list[j].sample_type,
        ),
    decreases x,
{
    if x > 0 {
        lemma_run_len(get, pixels, list, origin, size, y, j, x - 1);
        assert(spec_source_pixel_ok(get, pixels, list, origin, x - 1, y));
        let s = get.spec_get(pixels, spec_position(origin, x - 1, y))[j];
        assert(spec_sample_matches(s, list[j].sample_type));
        assert((x - 1) * spec_bytes_per_sample(list[j].sample_type) + spec_bytes_per_sample(
            list[j].sample_type,
        ) == x * spec_bytes_per_sample(list[j].sample_type)) by (nonlinear_arith);
    }
}

/// The first `j` channel runs of a row occupy `width` times the planar
/// offset of channel `j`.
pub proof fn lemma_row_built_len<Storage, Source: GetPixel<Storage>>(
    get: Source,
    pixels: Storage,
    list: Seq<ChannelDescriptor>,
    origin: Vec2,
    size: Vec2,
    y: int,
    j: int,
)
    requires
        spec_source_ok(get, pixels, list, origin, size),
        0 <= j <= list.len(),
        0 <= y < size.1,
    ensures
        spec_row_built(get, pixels, list, origin, size.0 as int, y, j).len() == size.0
            * spec_offset_of(list, j),
    decreases j,
{
    if j == 0 {
        assert(list.take(0) =~= Seq::<ChannelDescriptor>::empty());
    } else {
        lemma_row_built_len(get, pixels, list, origin, size, y, j - 1);
        lemma_run_len(get, pixels, list, origin, size, y, j - 1, size.0 as int);
        lemma_offset_step(list, j - 1);
        let w = size.0 as int;
        let a = spec_offset_of(list, j - 1) as int;
        let bps = spec_bytes_per_sample(list[j - 1].sample_type) as int;
        assert(w * a + w * bps == w * (a + bps) && size.0 * spec_offset_of(list, j - 1) == w * a
            && w * bps == size.0 * spec_bytes_per_sample(list[j - 1].sample_type) && w * (a + bps)
            == size.0 * spec_offset_of(list, j)) by (nonlinear_arith)
            requires
                w == size.0,
                a == spec_offset_of(list, j - 1),
                bps == spec_bytes_per_sample(list[j - 1].sample_type),
                spec_offset_of(list, j) == spec_offset_of(list, j - 1) + spec_bytes_per_sample(
                    list[j - 1].sample_type,
                ),
        ;
        assert(spec_row_built(get, pixels, list, origin, w, y, j) == spec_row_built(
            get,
            pixels,
            list,
            origin,
            w,
            y,
            j - 1,
        ) + spec_run(get, pixels, list, origin, y, j - 1, w));
        assert(spec_row_built(get, pixels, list, origin, w, y, j).len() == w * a + w * bps);
    }
}

/// One whole row is `width` times the bytes per pixel long.
pub proof fn lemma_row_len<Storage, Source: GetPixel<Storage>>(
    get: Source,
    pixels: Storage,
    list: Seq<ChannelDescriptor>,
    origin: Vec2,
    size: Vec2,
    y: int,
)
    requires
        spec_source_ok(get, pixels, list, origin, size),
        0 <= y < size.1,
    ensures
        spec_row_built(get, pixels, list, origin, size.0 as int, y, list.len() as int).len()
            == size.0 * spec_bytes_per_pixel(list),
{
    lemma_row_built_len(get, pixels, list, origin, size, y, list.len() as int);
    assert(list.take(list.len() as int) =~= list);
}

/// The first `y` rows occupy `y` whole rows of bytes.
pub proof fn lemma_encoded_rows_len<Storage, Source: GetPixel<Storage>>(
    get: Source,
    pixels: Storage,
    list: Seq<ChannelDescriptor>,
    origin: Vec2,
    size: Vec2,
    y: int,
)
    requires
        spec_source_ok(get, pixels, list, origin, size),
        0 <= y <= size.1,
    ensures
        spec_encoded_rows(get, pixels, list, origin, size.0 as int, y).len() == y * (size.0
            * spec_bytes_per_pixel(list)),
    decreases y,
{
    if y > 0 {
        lemma_encoded_rows_len(get, pixels, list, origin, size, y - 1);
        lemma_row_len(get, pixels, list, origin, size, y - 1);
        assert(spec_encoded_rows(get, pixels, list, origin, size.0 as int, y)
            == spec_encoded_rows(get, pixels, list, origin, size.0 as int, y - 1)
            + spec_row_built(get, pixels, list, origin, size.0 as int, y - 1, list.len() as int));
        assert((y - 1) * (size.0 * spec_bytes_per_pixel(list)) + size.0 * spec_bytes_per_pixel(
            list,
        ) == y * (size.0 * spec_bytes_per_pixel(list))) by (nonlinear_arith);
    } else {
        assert(spec_encoded_rows(get, pixels, list, origin, size.0 as int, y).len() == 0);
        assert(y * (size.0 * spec_bytes_per_pixel(list)) == 0) by (nonlinear_arith)
            requires
                y == 0,
        ;
    }
}

/// Helper for `lemma_planar_layout`: the run of channel `j` keeps its
/// place while later channels' runs are appended.
proof fn lemma_planar_layout_upto<Storage, Source: GetPixel<Storage>>(
    get: Source,
    pixels: Storage,
    list: Seq<ChannelDescriptor>,
    origin: Vec2,
    size: Vec2,
    y: int,
    j: int,
    k: int,
)
    requires
        spec_source_ok(get, pixels, list, origin, size),
        0 <= j < list.len(),
        0 <= y < size.1,
        j < k <= list.len(),
    ensures
        spec_row_built(get, pixels, list, origin, size.0 as int, y, k).subrange(
            size.0 * spec_offset_of(list, j),
            size.0 * spec_offset_of(list, j) + size.0 * spec_bytes_per_sample(
                list[j].sample_type,
            ),
        ) == spec_run(get, pixels, list, origin, y, j, size.0 as int),
    decreases k,
{
    let w = size.0 as int;
    let a = size.0 * spec_offset_of(list, j);
    let b = a + size.0 * spec_bytes_per_sample(list[j].sample_type);
    lemma_row_built_len(get, pixels, list, origin, size, y, j);
    lemma_run_len(get, pixels, list, origin, size, y, j, w);
    if k == j + 1 {
        assert(spec_row_built(get, pixels, list, origin, w, y, k).subrange(a, b) =~= spec_run(
            get,
            pixels,
            list,
            origin,
            y,
            j,
            w,
        ));
    } else {
        lemma_planar_layout_upto(get, pixels, list, origin, size, y, j, k - 1);
        lemma_row_built_len(get, pixels, list, origin, size, y, k - 1);
        crate::channels::lemma_offset_step(list, j);
        crate::channels::lemma_offset_monotone(list, j + 1, k - 1);
        assert(b <= size.0 * spec_offset_of(list, k - 1)) by (nonlinear_arith)
            requires
                a == size.0 * spec_offset_of(list, j),
                b == a + size.0 * spec_bytes_per_sample(list[j].sample_type),
                spec_offset_of(list, j) + spec_bytes_per_sample(list[j].sample_type)
                    == spec_offset_of(list, j + 1),
                spec_offset_of(list, j + 1) <= spec_offset_of(list, k - 1),
                size.0 >= 0,
        ;
        assert(spec_row_built(get, pixels, list, origin, w, y, k).subrange(a, b)
            =~= spec_row_built(get, pixels, list, origin, w, y, k - 1).subrange(a, b));
    }
}

/// The channel-planar layout of one row: within the bytes of a full row,
/// channel `j`'s samples form the contiguous run that starts at the
/// channel's planar byte offset times the row's width in pixels.
pub proof fn lemma_planar_layout<Storage, Source: GetPixel<Storage>>(
    get: Source,
    pixels: Storage,
    list: Seq<ChannelDescriptor>,
    origin: Vec2,
    size: Vec2,
    y: int,
    j: int,
)
    requires
        spec_source_ok(get, pixels, list, origin, size),
        0 <= j < list.len(),
        0 <= y < size.1,
    ensures
        spec_row_built(get, pixels, list, origin, size.0 as int, y, list.len() as int).subrange(
            size.0 * spec_offset_of(list, j),
            size.0 * spec_offset_of(list, j) + size.0 * spec_bytes_per_sample(
                list[j].sample_type,
            ),
        ) == spec_run(get, pixels, list, origin, y, j, size.0 as int),
{
    lemma_planar_layout_upto(get, pixels, list, origin, size, y, j, list.len() as int);
}

/// Helper for `lemma_run_sample`: a sample's bytes keep their place
/// while later columns' samples are appended to the run.
proof fn lemma_run_sample_upto<Storage, Source: GetPixel<Storage>>(
    get: Source,
    pixels: Storage,
    list: Seq<ChannelDescriptor>,
    origin: Vec2,
    size: Vec2,
    y: int,
    j: int,
    x: int,
    k: int,
)
    requires
        spec_source_ok(get, pixels, list, origin, size),
        0 <= j < list.len(),
        0 <= y < size.1,
        0 <= x < size.0,
        x < k <= size.0,
    ensures
        spec_run(get, pixels, list, origin, y, j, k).subrange(
            x * spec_bytes_per_sample(list[j].sample_type),
            (x + 1) * spec_bytes_per_sample(list[j].sample_type),
        ) == spec_sample_to_bytes(get.spec_get(pixels, spec_position(origin, x, y))[j].unwrap()),
    decreases k,
{
    let bps = spec_bytes_per_sample(list[j].sample_type) as int;
    lemma_run_len(get, pixels, list, origin, size, y, j, x);
    assert(spec_source_pixel_ok(get, pixels, list, origin, x, y));
    assert((x + 1) * bps == x * bps + bps) by (nonlinear_arith);
    if k == x + 1 {
        assert(spec_run(get, pixels, list, origin, y, j, k).subrange(x * bps, (x + 1) * bps)
            =~= spec_sample_to_bytes(
            get.spec_get(pixels, spec_position(origin, x, y))[j].unwrap(),
        ));
    } else {
        lemma_run_sample_upto(get, pixels, list, origin, size, y, j, x, k - 1);
        lemma_run_len(get, pixels, list, origin, size, y, j, k - 1);
        assert((x + 1) * bps <= (k - 1) * bps) by (nonlinear_arith)
            requires
                x + 1 <= k - 1,
                bps >= 0,
        ;
        assert(spec_run(get, pixels, list, origin, y, j, k).subrange(x * bps, (x + 1) * bps)
            =~= spec_run(get, pixels, list, origin, y, j, k - 1).subrange(
            x * bps,
            (x + 1) * bps,
        ));
    }
}

/// Helper for the round trip: a row keeps its place while later rows are
/// appended to the block.
proof fn lemma_block_row_upto<Storage, Source: GetPixel<Storage>>(
    get: Source,
    pixels: Storage,
    list: Seq<ChannelDescriptor>,
    origin: Vec2,
    size: Vec2,
    y: int,
    k: int,
)
    requires
        spec_source_ok(get, pixels, list, origin, size),
        0 <= y < size.1,
        y < k <= size.1,
    ensures
        spec_encoded_rows(get, pixels, list, origin, size.0 as int, k).subrange(
            y * (size.0 * spec_bytes_per_pixel(list)),
            (y + 1) * (size.0 * spec_bytes_per_pixel(list)),
        ) == spec_row_built(get, pixels, list, origin, size.0 as int, y, list.len() as int),
    decreases k,
{
    let row_bytes = size.0 * spec_bytes_per_pixel(list);
    lemma_encoded_rows_len(get, pixels, list, origin, size, y);
    lemma_row_len(get, pixels, list, origin, size, y);
    assert((y + 1) * row_bytes == y * row_bytes + row_bytes) by (nonlinear_arith);
    if k == y + 1 {
        assert(spec_encoded_rows(get, pixels, list, origin, size.0 as int, k).subrange(
            y * row_bytes,
            (y + 1) * row_bytes,
        ) =~= spec_row_built(get, pixels, list, origin, size.0 as int, y, list.len() as int));
    } else {
        lemma_block_row_upto(get, pixels, list, origin, size, y, k - 1);
        lemma_encoded_rows_len(get, pixels, list, origin, size, k - 1);
        assert((y + 1) * row_bytes <= (k - 1) * row_bytes) by (nonlinear_arith)
            requires
                y + 1 <= k - 1,
                row_bytes >= 0,
        ;
        assert(spec_encoded_rows(get, pixels, list, origin, size.0 as int, k).subrange(
            y * row_bytes,
            (y + 1) * row_bytes,
        ) =~= spec_encoded_rows(get, pixels, list, origin, size.0 as int, k - 1).subrange(
            y * row_bytes,
            (y + 1) * row_bytes,
        ));
    }
}

/// A window of a window: the bytes of one sample within one channel's
/// run are the same bytes within the whole row.
proof fn lemma_subrange_compose(s: Seq<u8>, a: int, step: int, x: int, n: int)
    requires
        0 <= a,
        0 <= step,
        0 <= x < n,
        a + n * step <= s.len(),
    ensures
        s.subrange(a + x * step, a + x * step + step) == s.subrange(a, a + n * step).subrange(
            x * step,
            x * step + step,
        ),
{
    assert(x * step + step <= n * step && x * step >= 0) by (nonlinear_arith)
        requires
            0 <= x < n,
            step >= 0,
    ;
    assert(s.subrange(a + x * step, a + x * step + step) =~= s.subrange(a, a + n * step).subrange(
        x * step,
        x * step + step,
    ));
}

/// The resolved slot that reads channel `ci` of `list` where it stands:
/// what resolving the channel's own name yields.
pub open spec fn spec_identity_slot(
    list: Seq<ChannelDescriptor>,
    ci: int,
) -> crate::channels::ResolvedChannel {
    crate::channels::ResolvedChannel::Present {
        sample_type: list[ci].sample_type,
        byte_offset: spec_offset_of(list, ci) as usize,
        channel_index: ci as usize,
    }
}

/// The planar round trip: encoding a block and reading the encoded bytes
/// back through a cursor on channel `ci` yields, at every column of
/// every row, exactly the sample the source supplied for that channel
/// at that pixel.
/// The bytes channel `ci`'s sample occupies, at column `x` of row `y`
/// of the encoded block: exactly the encoding of the sample the source
/// supplied there.
#[verifier::rlimit(100)]
#[verifier::spinoff_prover]
pub proof fn lemma_encoded_sample_bytes<Storage, Source: GetPixel<Storage>>(
    get: Source,
    pixels: Storage,
    list: Seq<ChannelDescriptor>,
    origin: Vec2,
    size: Vec2,
    ci: int,
    x: int,
    y: int,
)
    requires
        spec_source_ok(get, pixels, list, origin, size),
        0 <= ci < list.len(),
        0 <= x < size.0,
        0 <= y < size.1,
    ensures
        crate::read::spec_row_of(
            spec_encoded_block(get, pixels, list, origin, size),
            size.0 as nat,
            spec_bytes_per_pixel(list),
            y,
        ).subrange(
            spec_offset_of(list, ci) * size.0 + x * spec_bytes_per_sample(list[ci].sample_type),
            spec_offset_of(list, ci) * size.0 + x * spec_bytes_per_sample(list[ci].sample_type)
                + spec_bytes_per_sample(list[ci].sample_type),
        ) == spec_sample_to_bytes(get.spec_get(pixels, spec_position(origin, x, y))[ci].unwrap()),
{
    let w = size.0 as int;
    let bpp = spec_bytes_per_pixel(list) as int;
    let t = list[ci].sample_type;
    let bps = spec_bytes_per_sample(t) as int;
    let off = spec_offset_of(list, ci) as int;
    let a = off * w;
    let idx = a + x * bps;
    let row = crate::read::spec_row_of(
        spec_encoded_block(get, pixels, list, origin, size),
        size.0 as nat,
        spec_bytes_per_pixel(list),
        y,
    );
    let built = spec_row_built(get, pixels, list, origin, w, y, list.len() as int);
    let run = spec_run(get, pixels, list, origin, y, ci, w);

    crate::channels::lemma_offset_step(list, ci);
    crate::channels::lemma_bytes_per_pixel_prefix(list, ci + 1);
    assert(off + bps <= bpp);
    assert(idx + bps <= w * bpp && a == size.0 * spec_offset_of(list, ci) && a >= 0 && x * bps
        >= 0 && w * bps == size.0 * spec_bytes_per_sample(list[ci].sample_type) && a + w * bps
        <= w * bpp) by (nonlinear_arith)
        requires
            off + bps <= bpp,
            0 <= x < w,
            off >= 0,
            bps >= 0,
            a == off * w,
            idx == a + x * bps,
            w == size.0,
            off == spec_offset_of(list, ci),
            bps == spec_bytes_per_sample(list[ci].sample_type),
            t == list[ci].sample_type,
            bpp == spec_bytes_per_pixel(list),
    ;

    // The row cut out of the encoded block is the built row.
    lemma_block_row_upto(get, pixels, list, origin, size, y, size.1 as int);
    assert(row == built);

    // Within the row, channel `ci`'s run starts at `offset * width`, and
    // within the run, column `x`'s sample sits at `x * bytes per sample`.
    lemma_planar_layout(get, pixels, list, origin, size, y, ci);
    lemma_row_len(get, pixels, list, origin, size, y);
    lemma_run_len(get, pixels, list, origin, size, y, ci, w);
    assert(built.subrange(a, a + w * bps) == run);
    lemma_run_sample_upto(get, pixels, list, origin, size, y, ci, x, w);

    let sample = get.spec_get(pixels, spec_position(origin, x, y))[ci].unwrap();
    assert((x + 1) * bps == x * bps + bps) by (nonlinear_arith);
    assert(run.subrange(x * bps, x * bps + bps) == spec_sample_to_bytes(sample));
    assert(built.len() == w * bpp);
    lemma_subrange_compose(built, a, bps, x, w);
    assert(built.subrange(idx, idx + bps) == run.subrange(x * bps, x * bps + bps));
}

/// The planar round trip: encoding a block and reading the encoded bytes
/// back through a cursor on channel `ci` yields, at every column of
/// every row, exactly the sample the source supplied for that channel
/// at that pixel.
#[verifier::rlimit(100)]
#[verifier::spinoff_prover]
pub proof fn lemma_encode_decode_round_trip<Storage, Source: GetPixel<Storage>>(
    get: Source,
    pixels: Storage,
    list: Seq<ChannelDescriptor>,
    origin: Vec2,
    size: Vec2,
    ci: int,
    x: int,
    y: int,
)
    requires
        spec_source_ok(get, pixels, list, origin, size),
        0 <= ci < list.len(),
        0 <= x < size.0,
        0 <= y < size.1,
        size.0 * spec_bytes_per_pixel(list) <= usize::MAX,
    ensures
        crate::cursor::spec_slot_value(
            crate::cursor::spec_cursor_at(spec_identity_slot(list, ci), size.0 as nat, x),
            crate::read::spec_row_of(
                spec_encoded_block(get, pixels, list, origin, size),
                size.0 as nat,
                spec_bytes_per_pixel(list),
                y,
            ),
        ) == get.spec_get(pixels, spec_position(origin, x, y))[ci],
{
    let w = size.0 as int;
    let bpp = spec_bytes_per_pixel(list) as int;
    let t = list[ci].sample_type;
    let bps = spec_bytes_per_sample(t) as int;
    let off = spec_offset_of(list, ci) as int;
    let a = off * w;
    let idx = a + x * bps;
    let row = crate::read::spec_row_of(
        spec_encoded_block(get, pixels, list, origin, size),
        size.0 as nat,
        spec_bytes_per_pixel(list),
        y,
    );

    crate::channels::lemma_offset_step(list, ci);
    crate::channels::lemma_bytes_per_pixel_prefix(list, ci + 1);
    assert(off + bps <= bpp);
    assert(idx + bps <= w * bpp && idx >= 0 && w * bpp == size.0 * spec_bytes_per_pixel(list)
        && bpp <= w * bpp) by (nonlinear_arith)
        requires
            off + bps <= bpp,
            0 <= x < w,
            off >= 0,
            bps >= 0,
            a == off * w,
            idx == a + x * bps,
            w == size.0,
            bpp == spec_bytes_per_pixel(list),
    ;
    assert(idx + bps <= usize::MAX);
    assert(off <= usize::MAX);
    assert(spec_offset_of(list, ci) as usize == off);

    lemma_encoded_sample_bytes(get, pixels, list, origin, size, ci, x, y);
    let sample = get.spec_get(pixels, spec_position(origin, x, y))[ci].unwrap();
    assert(row.subrange(idx, idx + bps) == spec_sample_to_bytes(sample));

    assert(spec_source_pixel_ok(get, pixels, list, origin, x, y));
    assert(sample.is_of_type(t));
    crate::samples::lemma_sample_round_trip(sample, t);
    assert(get.spec_get(pixels, spec_position(origin, x, y))[ci] == Some(sample));

    // The cursor on channel `ci` at column `x` reads exactly those bytes.
    let cur = crate::cursor::spec_cursor_at(spec_identity_slot(list, ci), size.0 as nat, x);
    assert(cur == (crate::cursor::SlotCursor::Present { sample_type: t, byte_index: idx as usize }));
    assert(idx as usize == idx);
    assert(crate::cursor::spec_slot_value(cur, row) == Some(
        crate::samples::spec_sample_from_bytes(t, row.subrange(idx, idx + bps)),
    ));
}

/// Appends one sample's bytes, in the byte order of the container.
fn push_sample(out: &mut Vec<u8>, sample: Sample)
    ensures
        final(out)@ == old(out)@ + spec_sample_to_bytes(sample),
{
    match sample {
        Sample::F16(v) => {
            out.push((v % 0x100) as u8);
            out.push(((v / 0x100) % 0x100) as u8);
        },
        Sample::F32(v) => {
            out.push((v % 0x100) as u8);
            out.push(((v / 0x100) % 0x100) as u8);
            out.push(((v / 0x10000) % 0x100) as u8);
            out.push(((v / 0x1000000) % 0x100) as u8);
        },
        Sample::U32(v) => {
            out.push((v % 0x100) as u8);
            out.push(((v / 0x100) % 0x100) as u8);
            out.push(((v / 0x10000) % 0x100) as u8);
            out.push(((v / 0x1000000) % 0x100) as u8);
        },
    }
    proof {
        assert(out@ =~= old(out)@ + spec_sample_to_bytes(sample));
    }
}

/// The channel data of one layer to be written: the declared channel
/// list, the caller's storage and the source capability that reads one
/// pixel from it.
#[derive(Clone, PartialEq, Eq, Debug)]
pub struct WritableChannels<Storage, Source> {
    /// The channels to write, in their on-disk order.
    pub channel_list: ChannelList,
    /// The caller's pixel storage.
    pub storage: Storage,
    /// Reads one pixel out of the storage.
    pub get_pixel: Source,
    /// Which resolution levels the layer stores.
    pub level_mode: LevelMode,
}

impl<Storage, Source: GetPixel<Storage>> WritableChannels<Storage, Source> {
    /// Extracts the channel-planar bytes of one block from the caller's
    /// storage: for each row, each channel's samples in channel order,
    /// each sample in the byte order of the container.
    pub fn extract_uncompressed_block(&self, header: &Header, block: BlockIndex) -> (r: Vec<u8>)
        requires
            self.channel_list.wf(),
            spec_source_ok(
                self.get_pixel,
                self.storage,
                self.channel_list.list@,
                block.pixel_position,
                block.pixel_size,
            ),
            block.pixel_position.0 + block.pixel_size.0 <= usize::MAX,
            block.pixel_position.1 + block.pixel_size.1 <= usize::MAX,
            spec_bytes_per_pixel(self.channel_list.list@) * block.pixel_size.0
                * block.pixel_size.1 <= usize::MAX,
        ensures
            r@ == spec_encoded_block(
                self.get_pixel,
                self.storage,
                self.channel_list.list@,
                block.pixel_position,
                block.pixel_size,
            ),
            r@.len() == spec_bytes_per_pixel(self.channel_list.list@) * block.pixel_size.0
                * block.pixel_size.1,
    {
        let w = block.pixel_size.0;
        let h = block.pixel_size.1;
        let origin = block.pixel_position;
        let n = self.channel_list.list.len();
        let ghost list = self.channel_list.list@;
        let ghost get = self.get_pixel;
        let ghost bpp = spec_bytes_per_pixel(list);

        let mut out: Vec<u8> = Vec::new();
        let mut y: usize = 0;
        while y < h
            invariant
                y <= h,
                w == block.pixel_size.0,
                h == block.pixel_size.1,
                origin == block.pixel_position,
                origin.0 + w <= usize::MAX,
                origin.1 + h <= usize::MAX,
                n == list.len(),
                list == self.channel_list.list@,
                get == self.get_pixel,
                bpp == spec_bytes_per_pixel(list),
                self.channel_list.wf(),
                spec_source_ok(get, self.storage, list, origin, block.pixel_size),
                out@ == spec_encoded_rows(get, self.storage, list, origin, w as int, y as int),
            decreases h - y,
        {
            proof {
                let rows = spec_encoded_rows(get, self.storage, list, origin, w as int, y as int);
                assert(spec_row_built(get, self.storage, list, origin, w as int, y as int, 0)
                    =~= Seq::<u8>::empty());
                assert(rows + Seq::<u8>::empty() =~= rows);
            }
            let mut j: usize = 0;
            while j < n
                invariant
                    y < h,
                    j <= n,
                    w == block.pixel_size.0,
                    h == block.pixel_size.1,
                    origin == block.pixel_position,
                    origin.0 + w <= usize::MAX,
                    origin.1 + h <= usize::MAX,
                    n == list.len(),
                    list == self.channel_list.list@,
                    get == self.get_pixel,
                    bpp == spec_bytes_per_pixel(list),
                    self.channel_list.wf(),
                    spec_source_ok(get, self.storage, list, origin, block.pixel_size),
                    out@ == spec_encoded_rows(get, self.storage, list, origin, w as int, y as int)
                        + spec_row_built(
                        get,
                        self.storage,
                        list,
                        origin,
                        w as int,
                        y as int,
                        j as int,
                    ),
                decreases n - j,
            {
                proof {
                    let prefix = spec_encoded_rows(get, self.storage, list, origin, w as int, y as int)
                        + spec_row_built(get, self.storage, list, origin, w as int, y as int, j as int);
                    assert(spec_run(get, self.storage, list, origin, y as int, j as int, 0)
                        =~= Seq::<u8>::empty());
                    assert(prefix + Seq::<u8>::empty() =~= prefix);
                }
                let mut x: usize = 0;
                while x < w
                    invariant
                        y < h,
                        j < n,
                        x <= w,
                        w == block.pixel_size.0,
                        h == block.pixel_size.1,
                        origin == block.pixel_position,
                        origin.0 + w <= usize::MAX,
                        origin.1 + h <= usize::MAX,
                        n == list.len(),
                        list == self.channel_list.list@,
                        get == self.get_pixel,
                        bpp == spec_bytes_per_pixel(list),
                        self.channel_list.wf(),
                        spec_source_ok(get, self.storage, list, origin, block.pixel_size),
                        out@ == spec_encoded_rows(
                            get,
                            self.storage,
                            list,
                            origin,
                            w as int,
                            y as int,
                        ) + spec_row_built(
                            get,
                            self.storage,
                            list,
                            origin,
                            w as int,
                            y as int,
                            j as int,
                        ) + spec_run(get, self.storage, list, origin, y as int, j as int, x as int),
                    decreases w - x,
                {
                    proof {
                        assert(spec_source_pixel_ok(
                            get,
                            self.storage,
                            list,
                            origin,
                            x as int,
                            y as int,
                        ));
                    }
                    let position = Vec2(origin.0 + x, origin.1 + y);
                    let px = self.get_pixel.get_pixel(&self.storage, position);
                    let sample = match px[j] {
                        Some(sample) => sample,
                        None => {
                            proof {
                                assert(false);
                            }
                            Sample::U32(0)
                        },
                    };
                    push_sample(&mut out, sample);
                    proof {
                        assert(px@.len() == n);
                        assert(out@ =~= spec_encoded_rows(
                            get,
                            self.storage,
                            list,
                            origin,
                            w as int,
                            y as int,
                        ) + spec_row_built(
                            get,
                            self.storage,
                            list,
                            origin,
                            w as int,
                            y as int,
                            j as int,
                        ) + spec_run(get, self.storage, list, origin, y as int, j as int, x + 1));
                    }
                    x = x + 1;
                }
                proof {
                    assert(out@ =~= spec_encoded_rows(
                        get,
                        self.storage,
                        list,
                        origin,
                        w as int,
                        y as int,
                    ) + spec_row_built(get, self.storage, list, origin, w as int, y as int, j + 1));
                }
                j = j + 1;
            }
            proof {
                assert(out@ =~= spec_encoded_rows(
                    get,
                    self.storage,
                    list,
                    origin,
                    w as int,
                    y + 1,
                ));
            }
            y = y + 1;
        }
        proof {
            lemma_encoded_rows_len(
                get,
                self.storage,
                list,
                origin,
                block.pixel_size,
                h as int,
            );
            assert(h * (w * bpp) == bpp * w * h) by (nonlinear_arith);
        }
        out
    }
}

} // verus!

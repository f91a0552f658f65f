//! A ready-made pixel storage: a row-major flattened sample vector, for
//! callers who do not need a custom representation.

use vstd::prelude::*;
use vstd::pervasive::VecAdditionalExecFns;
use crate::samples::Sample;
use crate::read::{
    ChannelsInfo, CreatePixels, SetPixel, spec_apply_chain, spec_apply_states, spec_block_pixels,
    spec_pixel_at, spec_row_of,
};
use crate::write::GetPixel;
use crate::Vec2;

verus! {

/// Store all pixels in a single row-major vector: all rows one after
/// another, index `y * width + x`.
#[derive(Clone, PartialEq, Eq, Debug)]
pub struct Flattened<T> {
    /// The resolution of this layer.
    pub size: Vec2,
    /// The flattened vector: all rows one after another.
    pub samples: Vec<T>,
}

impl<T> Flattened<T> {
    /// The vector holds exactly one element per pixel.
    pub open spec fn wf(&self) -> bool {
        self.samples@.len() == self.size.spec_area()
    }

    /// The flat index of the pixel at `position`: `y * width + x`.
    pub open spec fn spec_pixel_index(&self, position: Vec2) -> int {
        position.1 * self.size.0 + position.0
    }

    /// Creates a new flattened pixel storage; the samples vector must
    /// hold exactly one element per pixel of the resolution.
    pub fn new(resolution: Vec2, samples: Vec<T>) -> (r: Self)
        requires
            resolution.spec_area() == samples@.len(),
        ensures
            r.size == resolution,
            r.samples == samples,
            r.wf(),
    {
        Self { size: resolution, samples }
    }

    /// Computes the flat index of the pixel at `position`, which must lie
    /// within the resolution.
    pub fn compute_pixel_index(&self, position: Vec2) -> (r: usize)
        requires
            position.0 < self.size.0,
            position.1 < self.size.1,
            self.size.spec_area() <= usize::MAX,
        ensures
            r == self.spec_pixel_index(position),
            r < self.size.spec_area(),
    {
        proof {
            assert(position.1 * self.size.0 + position.0 < self.size.0 * self.size.1)
                by (nonlinear_arith)
                requires
                    position.0 < self.size.0,
                    position.1 < self.size.1,
            ;
        }
        position.1 * self.size.0 + position.0
    }
}

/// Creates a flattened storage for one layer, every pixel set to
/// `background`, one element per pixel of the layer's resolution.
pub fn create_flattened<T: Copy>(info: &ChannelsInfo, background: T) -> (r: Flattened<T>)
    requires
        info.resolution.spec_area() <= usize::MAX,
    ensures
        r.size == info.resolution,
        r.wf(),
        forall|i: int| 0 <= i < r.samples@.len() ==> r.samples@[i] == background,
{
    let count = info.resolution.area();
    let mut samples: Vec<T> = Vec::new();
    let mut i: usize = 0;
    while i < count
        invariant
            i <= count,
            samples@.len() == i,
            forall|k: int| 0 <= k < i ==> samples@[k] == background,
        decreases count - i,
    {
        samples.push(background);
        i = i + 1;
    }
    Flattened { size: info.resolution, samples }
}

/// Examines one pixel of a flattened storage.
pub fn get_flattened_pixel<'a, T>(image: &'a Flattened<T>, position: Vec2) -> (r: &'a T)
    requires
        image.wf(),
        position.0 < image.size.0,
        position.1 < image.size.1,
        image.size.spec_area() <= usize::MAX,
    ensures
        *r == image.samples@[image.spec_pixel_index(position)],
{
    let index = image.compute_pixel_index(position);
    &image.samples[index]
}

/// Updates one pixel of a flattened storage.
pub fn set_flattened_pixel<T>(image: &mut Flattened<T>, position: Vec2, pixel: T)
    requires
        old(image).wf(),
        position.0 < old(image).size.0,
        position.1 < old(image).size.1,
        old(image).size.spec_area() <= usize::MAX,
    ensures
        final(image).size == old(image).size,
        final(image).samples@ == old(image).samples@.update(
            old(image).spec_pixel_index(position),
            pixel,
        ),
        final(image).wf(),
{
    let index = image.compute_pixel_index(position);
    image.samples.set(index, pixel);
}

/// A copy of one pixel's sample values.
pub fn duplicate_pixel(pixel: &Vec<Option<Sample>>) -> (r: Vec<Option<Sample>>)
    ensures
        r@ == pixel@,
{
    let mut r: Vec<Option<Sample>> = Vec::new();
    let mut i: usize = 0;
    while i < pixel.len()
        invariant
            i <= pixel@.len(),
            r@ == pixel@.take(i as int),
        decreases pixel@.len() - i,
    {
        r.push(pixel[i]);
        proof {
            assert(r@ =~= pixel@.take(i + 1));
        }
        i = i + 1;
    }
    proof {
        assert(r@ =~= pixel@);
    }
    r
}

/// The factory capability of the flattened storage: allocates one
/// `Flattened` per layer, each pixel starting out with no samples.
#[derive(Clone, Copy, PartialEq, Eq, Structural, Debug)]
pub struct FlattenedCreator;

impl CreatePixels for FlattenedCreator {
    type Pixels = Flattened<Vec<Option<Sample>>>;

    open spec fn create_req(&self, resolution: Vec2) -> bool {
        resolution.spec_area() <= usize::MAX
    }

    open spec fn created_ok(&self, info: &ChannelsInfo, r: &Self::Pixels) -> bool {
        &&& r.size == info.resolution
        &&& r.wf()
        &&& forall|i: int| 0 <= i < r.samples@.len() ==> r.samples@[i]@.len() == 0
    }

    fn create(&self, info: &ChannelsInfo) -> (r: Self::Pixels) {
        Flattened { size: info.resolution, samples: fill_pixels(info.resolution.area()) }
    }
}

/// A vector of `count` empty pixels.
fn fill_pixels(count: usize) -> (r: Vec<Vec<Option<Sample>>>)
    ensures
        r@.len() == count,
        forall|i: int| 0 <= i < r@.len() ==> r@[i]@.len() == 0,
{
    let mut samples: Vec<Vec<Option<Sample>>> = Vec::new();
    let mut i: usize = 0;
    while i < count
        invariant
            i <= count,
            samples@.len() == i,
            forall|k: int| 0 <= k < i ==> samples@[k]@.len() == 0,
        decreases count - i,
    {
        let empty: Vec<Option<Sample>> = Vec::new();
        samples.push(empty);
        i = i + 1;
    }
    samples
}

/// The sink capability of the flattened storage: stores one decoded
/// pixel at its row-major index. A store outside the storage's bounds,
/// or into a malformed storage, leaves the storage unchanged.
#[derive(Clone, Copy, PartialEq, Eq, Structural, Debug)]
pub struct FlattenedSink;

impl SetPixel<Flattened<Vec<Option<Sample>>>> for FlattenedSink {
    open spec fn set_ok(
        &self,
        old_storage: Flattened<Vec<Option<Sample>>>,
        new_storage: Flattened<Vec<Option<Sample>>>,
        position: Vec2,
        pixel: Seq<Option<Sample>>,
    ) -> bool {
        if old_storage.wf() && position.0 < old_storage.size.0 && position.1
            < old_storage.size.1 {
            &&& new_storage.size == old_storage.size
            &&& new_storage.samples@.len() == old_storage.samples@.len()
            &&& new_storage.samples@[old_storage.spec_pixel_index(position)]@ == pixel
            &&& forall|i: int|
                0 <= i < new_storage.samples@.len() && i != old_storage.spec_pixel_index(
                    position,
                ) ==> new_storage.samples@[i] == old_storage.samples@[i]
        } else {
            new_storage == old_storage
        }
    }

    fn set_pixel(
        &self,
        pixels: &mut Flattened<Vec<Option<Sample>>>,
        position: Vec2,
        pixel: Vec<Option<Sample>>,
    ) {
        let in_bounds = position.0 < pixels.size.0 && position.1 < pixels.size.1;
        let area = match pixels.size.0.checked_mul(pixels.size.1) {
            Some(area) => area,
            None => {
                // More pixels than the machine's word can count: the
                // vector cannot be that long, so the storage is malformed.
                let n = pixels.samples.len();
                proof {
                    assert(pixels.samples@.len() == n);
                }
                return ;
            },
        };
        if in_bounds && pixels.samples.len() == area {
            let index = pixels.compute_pixel_index(position);
            pixels.samples.set(index, pixel);
        }
    }
}

/// Whether no pixel after the `k`-th of `pixels` lands on the same flat
/// index of a storage sized like `s0`: the `k`-th store is the last one
/// at its cell.
pub open spec fn spec_last_write_at(
    s0: Flattened<Vec<Option<Sample>>>,
    pixels: Seq<(Vec2, Seq<Option<Sample>>)>,
    k: int,
) -> bool {
    forall|k2: int|
        k < k2 < pixels.len() ==> s0.spec_pixel_index((#[trigger] pixels[k2]).0)
            != s0.spec_pixel_index(pixels[k].0)
}

/// Whether no pixel of `pixels` lands on flat index `i` of a storage
/// sized like `s0`.
pub open spec fn spec_untouched(
    s0: Flattened<Vec<Option<Sample>>>,
    pixels: Seq<(Vec2, Seq<Option<Sample>>)>,
    i: int,
) -> bool {
    forall|k: int|
        0 <= k < pixels.len() ==> s0.spec_pixel_index((#[trigger] pixels[k]).0) != i
}

/// What a decode chain through the flattened sink does to the storage:
/// the geometry is kept; a cell whose last store is the `k`-th pixel
/// holds that pixel; a cell no pixel lands on keeps its old value. With
/// the distinct positions of one block this pins every cell.
pub proof fn lemma_flattened_decode(
    s0: Flattened<Vec<Option<Sample>>>,
    s1: Flattened<Vec<Option<Sample>>>,
    pixels: Seq<(Vec2, Seq<Option<Sample>>)>,
)
    requires
        spec_apply_chain(FlattenedSink, s0, s1, pixels),
        s0.wf(),
        forall|k: int|
            0 <= k < pixels.len() ==> (#[trigger] pixels[k]).0.0 < s0.size.0 && pixels[k].0.1
                < s0.size.1,
    ensures
        s1.size == s0.size,
        s1.wf(),
        s1.samples@.len() == s0.samples@.len(),
        forall|k: int|
            0 <= k < pixels.len() && spec_last_write_at(s0, pixels, k)
                ==> s1.samples@[s0.spec_pixel_index((#[trigger] pixels[k]).0)]@ == pixels[k].1,
        forall|i: int|
            0 <= i < s1.samples@.len() && spec_untouched(s0, pixels, i) ==> s1.samples@[i]
                == s0.samples@[i],
    decreases pixels.len(),
{
    let states = choose|st: Seq<Flattened<Vec<Option<Sample>>>>|
        spec_apply_states(FlattenedSink, s0, s1, st, pixels);
    if pixels.len() == 0 {
        assert(states.first() == states.last());
    } else {
        let n = pixels.len() as int;
        let mid = states[n - 1];
        let rest = pixels.drop_last();
        assert forall|i: int|
            0 <= i < rest.len() implies FlattenedSink.set_ok(
            #[trigger] states.drop_last()[i],
            states.drop_last()[i + 1],
            rest[i].0,
            rest[i].1,
        ) by {
            assert(states.drop_last()[i] == states[i]);
            assert(states.drop_last()[i + 1] == states[i + 1]);
            assert(rest[i] == pixels[i]);
        }
        assert(spec_apply_states(FlattenedSink, s0, mid, states.drop_last(), rest));
        lemma_flattened_decode(s0, mid, rest);

        let p = pixels[n - 1];
        let idx = s0.spec_pixel_index(p.0);
        assert(FlattenedSink.set_ok(mid, s1, p.0, p.1));
        assert(mid.wf() && p.0.0 < mid.size.0 && p.0.1 < mid.size.1);
        assert(mid.spec_pixel_index(p.0) == idx);
        assert(0 <= idx < mid.samples@.len()) by {
            assert(p.0.1 * s0.size.0 + p.0.0 < s0.size.0 * s0.size.1) by (nonlinear_arith)
                requires
                    p.0.0 < s0.size.0,
                    p.0.1 < s0.size.1,
            ;
        }

        assert forall|k: int|
            0 <= k < pixels.len() && spec_last_write_at(s0, pixels, k) implies s1.samples@[
            s0.spec_pixel_index((#[trigger] pixels[k]).0)]@ == pixels[k].1 by {
            if k == n - 1 {
                assert(s1.samples@[idx]@ == p.1);
            } else {
                assert(spec_last_write_at(s0, rest, k)) by {
                    assert forall|k2: int|
                        k < k2 < rest.len() implies s0.spec_pixel_index((#[trigger] rest[k2]).0)
                        != s0.spec_pixel_index(rest[k].0) by {
                        assert(rest[k2] == pixels[k2]);
                        assert(rest[k] == pixels[k]);
                    }
                }
                assert(rest[k] == pixels[k]);
                let ik = s0.spec_pixel_index(pixels[k].0);
                assert(0 <= ik < mid.samples@.len()) by {
                    assert(pixels[k].0.1 * s0.size.0 + pixels[k].0.0 < s0.size.0 * s0.size.1)
                        by (nonlinear_arith)
                        requires
                            pixels[k].0.0 < s0.size.0,
                            pixels[k].0.1 < s0.size.1,
                    ;
                }
                assert(mid.samples@[ik]@ == pixels[k].1);
                // The last store hits a different cell, so cell `ik` is kept.
                assert(s0.spec_pixel_index(pixels[n - 1].0) != ik);
                assert(s1.samples@[ik] == mid.samples@[ik]);
            }
        }
        assert forall|i: int|
            0 <= i < s1.samples@.len() && spec_untouched(s0, pixels, i) implies s1.samples@[i]
            == s0.samples@[i] by {
            assert(spec_untouched(s0, rest, i)) by {
                assert forall|k: int|
                    0 <= k < rest.len() implies s0.spec_pixel_index((#[trigger] rest[k]).0)
                    != i by {
                    assert(rest[k] == pixels[k]);
                }
            }
            assert(mid.samples@[i] == s0.samples@[i]);
            assert(s0.spec_pixel_index(pixels[n - 1].0) != i);
            assert(s1.samples@[i] == mid.samples@[i]);
        }
    }
}

/// Within one block, a decoded pixel's cell is hit by no later decoded
/// pixel: the block's positions are pairwise distinct cells of any
/// flattened storage that contains the block.
pub proof fn lemma_block_positions_distinct(
    s0: Flattened<Vec<Option<Sample>>>,
    resolved: Seq<crate::channels::ResolvedChannel>,
    data: Seq<u8>,
    origin: Vec2,
    width: nat,
    height: nat,
    bpp: nat,
    k: int,
)
    requires
        origin.0 + width <= s0.size.0,
        origin.1 + height <= s0.size.1,
        width > 0,
        0 <= k < width * height,
    ensures
        spec_last_write_at(s0, spec_block_pixels(resolved, data, origin, width, height, bpp), k),
{
    let pixels = spec_block_pixels(resolved, data, origin, width, height, bpp);
    let w = width as int;
    let big_w = s0.size.0 as int;
    assert forall|k2: int|
        k < k2 < pixels.len() implies s0.spec_pixel_index((#[trigger] pixels[k2]).0)
        != s0.spec_pixel_index(pixels[k].0) by {
        vstd::arithmetic::div_mod::lemma_fundamental_div_mod(k, w);
        vstd::arithmetic::div_mod::lemma_fundamental_div_mod(k2, w);
        vstd::arithmetic::div_mod::lemma_div_is_ordered(k, k2, w);
        vstd::arithmetic::div_mod::lemma_mod_bound(k, w);
        vstd::arithmetic::div_mod::lemma_mod_bound(k2, w);
        let x = k % w;
        let y = k / w;
        let x2 = k2 % w;
        let y2 = k2 / w;
        assert(y < height && y2 < height) by (nonlinear_arith)
            requires
                k == w * y + x,
                k2 == w * y2 + x2,
                0 <= x < w,
                0 <= x2 < w,
                0 <= k < k2 < w * height,
        ;
        assert(pixels[k].0 == Vec2((origin.0 + x) as usize, (origin.1 + y) as usize));
        assert(pixels[k2].0 == Vec2((origin.0 + x2) as usize, (origin.1 + y2) as usize));
        assert((origin.1 + y2) * big_w + origin.0 + x2 != (origin.1 + y) * big_w + origin.0
            + x) by (nonlinear_arith)
            requires
                k == w * y + x,
                k2 == w * y2 + x2,
                k < k2,
                0 <= x < w,
                0 <= x2 < w,
                y <= y2,
                origin.0 + w <= big_w,
                0 <= origin.0,
                0 <= origin.1,
        ;
    }
}

/// Decoding one whole in-bounds block through the flattened sink sets
/// exactly the block's cells, each to its own decoded pixel, and leaves
/// every other cell of the storage unchanged.
pub proof fn lemma_flattened_block_decode(
    s0: Flattened<Vec<Option<Sample>>>,
    s1: Flattened<Vec<Option<Sample>>>,
    resolved: Seq<crate::channels::ResolvedChannel>,
    data: Seq<u8>,
    origin: Vec2,
    width: nat,
    height: nat,
    bpp: nat,
)
    requires
        spec_apply_chain(
            FlattenedSink,
            s0,
            s1,
            spec_block_pixels(resolved, data, origin, width, height, bpp),
        ),
        s0.wf(),
        origin.0 + width <= s0.size.0,
        origin.1 + height <= s0.size.1,
    ensures
        s1.size == s0.size,
        s1.wf(),
        forall|x: int, y: int|
            0 <= x < width && 0 <= y < height ==> s1.samples@[(origin.1 + y) * s0.size.0
                + origin.0 + x]@ == #[trigger] spec_pixel_at(
                resolved,
                spec_row_of(data, width, bpp, y),
                width,
                x,
            ),
        forall|i: int|
            0 <= i < s1.samples@.len() && spec_untouched(
                s0,
                spec_block_pixels(resolved, data, origin, width, height, bpp),
                i,
            ) ==> s1.samples@[i] == s0.samples@[i],
{
    let pixels = spec_block_pixels(resolved, data, origin, width, height, bpp);
    let w = width as int;
    assert forall|k: int| 0 <= k < pixels.len() implies (#[trigger] pixels[k]).0.0 < s0.size.0
        && pixels[k].0.1 < s0.size.1 by {
        vstd::arithmetic::div_mod::lemma_fundamental_div_mod(k, w);
        vstd::arithmetic::div_mod::lemma_mod_bound(k, w);
        let x = k % w;
        let y = k / w;
        assert(y < height) by (nonlinear_arith)
            requires
                k == w * y + x,
                0 <= x < w,
                0 <= k < w * height,
        ;
    }
    lemma_flattened_decode(s0, s1, pixels);
    assert forall|x: int, y: int|
        0 <= x < width && 0 <= y < height implies s1.samples@[(origin.1 + y) * s0.size.0
        + origin.0 + x]@ == spec_pixel_at(
        resolved,
        spec_row_of(data, width, bpp, y),
        width,
        x,
    ) by {
        let k = y * w + x;
        assert(0 <= k < w * height) by (nonlinear_arith)
            requires
                0 <= x < w,
                0 <= y < height,
                k == y * w + x,
        ;
        assert(k / w == y && k % w == x) by (nonlinear_arith)
            requires
                k == y * w + x,
                0 <= x < w,
        ;
        lemma_block_positions_distinct(s0, resolved, data, origin, width, height, bpp, k);
        assert(pixels[k].0 == Vec2((origin.0 + x) as usize, (origin.1 + y) as usize));
        assert(pixels[k].1 == spec_pixel_at(resolved, spec_row_of(data, width, bpp, y), width, x));
        assert(s1.samples@[s0.spec_pixel_index(pixels[k].0)]@ == pixels[k].1);
        assert(s0.spec_pixel_index(pixels[k].0) == (origin.1 + y) * s0.size.0 + origin.0 + x);
    }
}

/// The source capability of the flattened storage: reads one pixel at
/// its row-major index.
#[derive(Clone, Copy, PartialEq, Eq, Structural, Debug)]
pub struct FlattenedSource;

impl GetPixel<Flattened<Vec<Option<Sample>>>> for FlattenedSource {
    open spec fn get_req(
        &self,
        pixels: Flattened<Vec<Option<Sample>>>,
        position: Vec2,
    ) -> bool {
        &&& pixels.wf()
        &&& position.0 < pixels.size.0
        &&& position.1 < pixels.size.1
        &&& pixels.size.spec_area() <= usize::MAX
    }

    open spec fn spec_get(
        &self,
        pixels: Flattened<Vec<Option<Sample>>>,
        position: Vec2,
    ) -> Seq<Option<Sample>> {
        pixels.samples@[pixels.spec_pixel_index(position)]@
    }

    fn get_pixel(
        &self,
        pixels: &Flattened<Vec<Option<Sample>>>,
        position: Vec2,
    ) -> (r: Vec<Option<Sample>>) {
        duplicate_pixel(get_flattened_pixel(pixels, position))
    }
}

} // verus!

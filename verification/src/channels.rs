//! Channel lists, channel selections, and the resolver that matches one
//! against the other.
//!
//! A layer's channel list is ordered and defines the on-disk layout of a
//! row: within one row, all samples of the first channel come first, then
//! all samples of the second channel, and so on (channel-planar). A
//! resolved channel's `byte_offset` is the cumulative byte size, per
//! pixel, of all channels preceding it in the list.

use vstd::prelude::*;
use crate::samples::{SampleType, spec_bytes_per_sample};
use crate::Error;

verus! {

/// One channel's metadata as declared in a layer's channel list.
#[derive(Clone, PartialEq, Eq, Debug)]
pub struct ChannelDescriptor {
    /// The channel's name, as raw bytes.
    pub name: Vec<u8>,
    /// The encoding of this channel's samples.
    pub sample_type: SampleType,
}

impl ChannelDescriptor {
    /// A copy whose name bytes and sample type equal this descriptor's.
    pub fn duplicate(&self) -> (r: ChannelDescriptor)
        ensures
            r.name@ == self.name@,
            r.sample_type == self.sample_type,
    {
        let mut name: Vec<u8> = Vec::new();
        let mut i: usize = 0;
        while i < self.name.len()
            invariant
                i <= self.name@.len(),
                name@ == self.name@.take(i as int),
            decreases self.name@.len() - i,
        {
            name.push(self.name[i]);
            proof {
                assert(name@ =~= self.name@.take(i + 1));
            }
            i = i + 1;
        }
        proof {
            assert(name@ =~= self.name@);
        }
        ChannelDescriptor { name, sample_type: self.sample_type }
    }
}

/// The total bytes one pixel occupies over the channels of `list`.
pub open spec fn spec_bytes_per_pixel(list: Seq<ChannelDescriptor>) -> nat
    decreases list.len(),
{
    if list.len() == 0 {
        0
    } else {
        spec_bytes_per_pixel(list.drop_last()) + spec_bytes_per_sample(list.last().sample_type)
    }
}

/// The cumulative byte size, per pixel, of the channels preceding index
/// `i` in `list`: the planar byte offset of channel `i`.
pub open spec fn spec_offset_of(list: Seq<ChannelDescriptor>, i: int) -> nat {
    spec_bytes_per_pixel(list.take(i))
}

/// A prefix of a channel list occupies no more bytes per pixel than the
/// whole list.
pub proof fn lemma_bytes_per_pixel_prefix(list: Seq<ChannelDescriptor>, i: int)
    requires
        0 <= i <= list.len(),
    ensures
        spec_bytes_per_pixel(list.take(i)) <= spec_bytes_per_pixel(list),
    decreases list.len() - i,
{
    if i == list.len() {
        assert(list.take(i) =~= list);
    } else {
        lemma_bytes_per_pixel_prefix(list, i + 1);
        assert(list.take(i + 1).drop_last() =~= list.take(i));
        assert(spec_bytes_per_pixel(list.take(i + 1)) == spec_bytes_per_pixel(list.take(i))
            + spec_bytes_per_sample(list[i].sample_type));
    }
}

/// The offset of channel `i + 1` is the offset of channel `i` plus the
/// byte size of channel `i`'s samples.
pub proof fn lemma_offset_step(list: Seq<ChannelDescriptor>, i: int)
    requires
        0 <= i < list.len(),
    ensures
        spec_offset_of(list, i + 1) == spec_offset_of(list, i) + spec_bytes_per_sample(
            list[i].sample_type,
        ),
{
    assert(list.take(i + 1).drop_last() =~= list.take(i));
}

/// The ordered channel list of one layer.
#[derive(Clone, PartialEq, Eq, Debug)]
pub struct ChannelList {
    /// The channels, in their on-disk order.
    pub list: Vec<ChannelDescriptor>,
}

impl ChannelList {
    /// The list is small enough that every per-pixel byte offset fits the
    /// machine's word.
    pub open spec fn wf(&self) -> bool {
        spec_bytes_per_pixel(self.list@) <= usize::MAX
    }

    /// The total bytes one pixel of this layer occupies, over all channels.
    pub fn bytes_per_pixel(&self) -> (r: usize)
        requires
            self.wf(),
        ensures
            r == spec_bytes_per_pixel(self.list@),
    {
        let mut total: usize = 0;
        let mut i: usize = 0;
        while i < self.list.len()
            invariant
                self.wf(),
                i <= self.list@.len(),
                total == spec_bytes_per_pixel(self.list@.take(i as int)),
            decreases self.list@.len() - i,
        {
            proof {
                lemma_offset_step(self.list@, i as int);
                lemma_bytes_per_pixel_prefix(self.list@, i + 1);
            }
            total = total + self.list[i].sample_type.bytes_per_sample();
            i = i + 1;
        }
        proof {
            assert(self.list@.take(self.list@.len() as int) =~= self.list@);
        }
        total
    }

    /// A copy of this channel list: same names, same encodings, in the
    /// same order.
    pub fn duplicate(&self) -> (r: ChannelList)
        ensures
            r.list@.len() == self.list@.len(),
            forall|i: int|
                0 <= i < r.list@.len() ==> (#[trigger] r.list@[i]).name@ == self.list@[i].name@
                    && r.list@[i].sample_type == self.list@[i].sample_type,
    {
        let mut list: Vec<ChannelDescriptor> = Vec::new();
        let mut i: usize = 0;
        while i < self.list.len()
            invariant
                i <= self.list@.len(),
                list@.len() == i,
                forall|k: int|
                    0 <= k < i ==> (#[trigger] list@[k]).name@ == self.list@[k].name@
                        && list@[k].sample_type == self.list@[k].sample_type,
            decreases self.list@.len() - i,
        {
            list.push(self.list[i].duplicate());
            i = i + 1;
        }
        ChannelList { list }
    }
}

/// The index of the first channel in `list` named `name`, if any.
pub open spec fn spec_find_channel(list: Seq<ChannelDescriptor>, name: Seq<u8>) -> Option<int>
    decreases list.len(),
{
    if list.len() == 0 {
        None
    } else if list[0].name@ == name {
        Some(0int)
    } else {
        match spec_find_channel(list.drop_first(), name) {
            Some(i) => Some(i + 1),
            None => None,
        }
    }
}

/// If every channel before `i` has a different name and channel `i` has
/// `name`, then `i` is the first match.
pub proof fn lemma_find_channel_hit(list: Seq<ChannelDescriptor>, name: Seq<u8>, i: int)
    requires
        0 <= i < list.len(),
        list[i].name@ == name,
        forall|k: int| 0 <= k < i ==> list[k].name@ != name,
    ensures
        spec_find_channel(list, name) == Some(i),
    decreases list.len(),
{
    if i == 0 {
    } else {
        assert(list[0].name@ != name);
        lemma_find_channel_hit(list.drop_first(), name, i - 1);
    }
}

/// If no channel has `name`, the search misses.
pub proof fn lemma_find_channel_miss(list: Seq<ChannelDescriptor>, name: Seq<u8>)
    requires
        forall|k: int| 0 <= k < list.len() ==> list[k].name@ != name,
    ensures
        spec_find_channel(list, name) is None,
    decreases list.len(),
{
    if list.len() > 0 {
        lemma_find_channel_miss(list.drop_first(), name);
    }
}

/// One requested channel: a name and whether its absence is an error.
#[derive(Clone, PartialEq, Eq, Debug)]
pub struct ChannelSelectionEntry {
    /// The requested channel's name, as raw bytes.
    pub name: Vec<u8>,
    /// Whether resolution must fail when the name has no match.
    pub required: bool,
}

/// An ordered, fixed-arity list of requested channels, chosen by the
/// caller when a reader or writer is built.
#[derive(Clone, PartialEq, Eq, Debug)]
pub struct ChannelSelection {
    /// The requested channels, in the order the caller wants them.
    pub entries: Vec<ChannelSelectionEntry>,
}

impl ChannelSelection {
    /// The arity is a small runtime constant: one to four slots.
    pub open spec fn wf(&self) -> bool {
        1 <= self.entries@.len() <= 4
    }
}

/// The result of matching one selection entry against a channel list:
/// either the channel's encoding and planar placement, or, for optional
/// entries only, absence.
#[derive(Clone, Copy, PartialEq, Eq, Structural, Debug)]
pub enum ResolvedChannel {
    /// The entry matched the channel at `channel_index` in the list.
    Present {
        /// The matched channel's sample encoding.
        sample_type: SampleType,
        /// The cumulative byte size, per pixel, of all preceding channels.
        byte_offset: usize,
        /// The matched channel's index in the channel list.
        channel_index: usize,
    },
    /// The (optional) entry matched no channel.
    Absent,
}

/// The resolution of one selection entry against `list`, when it does not
/// fail: the first matching channel's placement, or absence.
pub open spec fn spec_resolve_slot(list: Seq<ChannelDescriptor>, name: Seq<u8>) -> ResolvedChannel {
    match spec_find_channel(list, name) {
        Some(i) => ResolvedChannel::Present {
            sample_type: list[i].sample_type,
            byte_offset: spec_offset_of(list, i) as usize,
            channel_index: i as usize,
        },
        None => ResolvedChannel::Absent,
    }
}

/// The index of the first required selection entry that matches no
/// channel of `list`, if any: the entry that makes resolution fail.
pub open spec fn spec_first_missing(
    list: Seq<ChannelDescriptor>,
    entries: Seq<ChannelSelectionEntry>,
) -> Option<int>
    decreases entries.len(),
{
    if entries.len() == 0 {
        None
    } else if entries[0].required && spec_find_channel(list, entries[0].name@) is None {
        Some(0int)
    } else {
        match spec_first_missing(list, entries.drop_first()) {
            Some(i) => Some(i + 1),
            None => None,
        }
    }
}

/// As `lemma_find_channel_hit`, for the first failing entry.
pub proof fn lemma_first_missing_hit(
    list: Seq<ChannelDescriptor>,
    entries: Seq<ChannelSelectionEntry>,
    j: int,
)
    requires
        0 <= j < entries.len(),
        entries[j].required && spec_find_channel(list, entries[j].name@) is None,
        forall|k: int|
            0 <= k < j ==> !(entries[k].required && spec_find_channel(list, entries[k].name@)
                is None),
    ensures
        spec_first_missing(list, entries) == Some(j),
    decreases entries.len(),
{
    if j > 0 {
        lemma_first_missing_hit(list, entries.drop_first(), j - 1);
    }
}

/// If no required entry is unmatched, resolution does not fail.
pub proof fn lemma_first_missing_none(
    list: Seq<ChannelDescriptor>,
    entries: Seq<ChannelSelectionEntry>,
)
    requires
        forall|k: int|
            0 <= k < entries.len() ==> !(entries[k].required && spec_find_channel(
                list,
                entries[k].name@,
            ) is None),
    ensures
        spec_first_missing(list, entries) is None,
    decreases entries.len(),
{
    if entries.len() > 0 {
        lemma_first_missing_none(list, entries.drop_first());
    }
}

/// Planar offsets grow along the channel list.
pub proof fn lemma_offset_monotone(list: Seq<ChannelDescriptor>, a: int, b: int)
    requires
        0 <= a <= b <= list.len(),
    ensures
        spec_offset_of(list, a) <= spec_offset_of(list, b),
{
    lemma_bytes_per_pixel_prefix(list.take(b), a);
    assert(list.take(b).take(a) =~= list.take(a));
}

/// Resolution is idempotent: it is determined, slot by slot, by the
/// selection and the channel list alone, so two successful resolutions
/// of the same selection against the same channel list are identical.
/// The premises are exactly what `ChannelSelection::resolve` ensures of
/// each successful result.
pub proof fn lemma_resolve_deterministic(
    list: Seq<ChannelDescriptor>,
    entries: Seq<ChannelSelectionEntry>,
    r1: Seq<ResolvedChannel>,
    r2: Seq<ResolvedChannel>,
)
    requires
        r1.len() == entries.len(),
        r2.len() == entries.len(),
        forall|j: int| 0 <= j < entries.len() ==> r1[j] == spec_resolve_slot(list, entries[j].name@),
        forall|j: int| 0 <= j < entries.len() ==> r2[j] == spec_resolve_slot(list, entries[j].name@),
    ensures
        r1 == r2,
{
    assert(r1 =~= r2);
}

/// Whether the byte sequences `a` and `b` are equal.
fn bytes_eq(a: &Vec<u8>, b: &Vec<u8>) -> (r: bool)
    ensures
        r == (a@ == b@),
{
    if a.len() != b.len() {
        assert(a@ != b@) by {
            assert(a@.len() != b@.len());
        }
        return false;
    }
    let mut i: usize = 0;
    while i < a.len()
        invariant
            a@.len() == b@.len(),
            i <= a@.len(),
            forall|k: int| 0 <= k < i ==> a@[k] == b@[k],
        decreases a@.len() - i,
    {
        if a[i] != b[i] {
            return false;
        }
        i = i + 1;
    }
    proof {
        assert(a@ =~= b@);
    }
    true
}

/// Resolves one selection entry against the channel list: scans the list
/// in order, first match wins, and records the match's encoding and
/// cumulative per-pixel byte offset.
fn resolve_slot(list: &ChannelList, name: &Vec<u8>) -> (r: ResolvedChannel)
    requires
        list.wf(),
    ensures
        r == spec_resolve_slot(list.list@, name@),
{
    let n = list.list.len();
    let mut offset: usize = 0;
    let mut i: usize = 0;
    while i < n
        invariant
            list.wf(),
            n == list.list@.len(),
            i <= n,
            offset == spec_offset_of(list.list@, i as int),
            forall|k: int| 0 <= k < i ==> list.list@[k].name@ != name@,
        decreases n - i,
    {
        if bytes_eq(&list.list[i].name, name) {
            proof {
                lemma_find_channel_hit(list.list@, name@, i as int);
            }
            return ResolvedChannel::Present {
                sample_type: list.list[i].sample_type,
                byte_offset: offset,
                channel_index: i,
            };
        }
        proof {
            lemma_offset_step(list.list@, i as int);
            lemma_bytes_per_pixel_prefix(list.list@, i + 1);
        }
        offset = offset + list.list[i].sample_type.bytes_per_sample();
        i = i + 1;
    }
    proof {
        lemma_find_channel_miss(list.list@, name@);
    }
    ResolvedChannel::Absent
}

impl ChannelSelection {
    /// Resolves this selection against a layer's channel list, slot by
    /// slot and in selection order. Fails with `MissingChannel`, naming
    /// the first such entry, exactly when a required entry matches no
    /// channel; otherwise every slot is the first matching channel's
    /// placement, or `Absent` for an unmatched optional entry.
    pub fn resolve(&self, channels: &ChannelList) -> (r: Result<Vec<ResolvedChannel>, Error>)
        requires
            channels.wf(),
        ensures
            match r {
                Ok(resolved) => {
                    &&& spec_first_missing(channels.list@, self.entries@) is None
                    &&& resolved@.len() == self.entries@.len()
                    &&& forall|j: int|
                        0 <= j < resolved@.len() ==> resolved@[j] == spec_resolve_slot(
                            channels.list@,
                            self.entries@[j].name@,
                        )
                },
                Err(e) => {
                    &&& spec_first_missing(channels.list@, self.entries@) matches Some(j)
                        && crate::is_missing_channel(e, self.entries@[j].name@)
                },
            },
    {
        let mut resolved: Vec<ResolvedChannel> = Vec::new();
        let mut j: usize = 0;
        while j < self.entries.len()
            invariant
                channels.wf(),
                j <= self.entries@.len(),
                resolved@.len() == j,
                forall|k: int|
                    0 <= k < j ==> resolved@[k] == spec_resolve_slot(
                        channels.list@,
                        self.entries@[k].name@,
                    ),
                forall|k: int|
                    0 <= k < j ==> !(self.entries@[k].required && spec_find_channel(
                        channels.list@,
                        self.entries@[k].name@,
                    ) is None),
            decreases self.entries@.len() - j,
        {
            let slot = resolve_slot(channels, &self.entries[j].name);
            match slot {
                ResolvedChannel::Absent => {
                    if self.entries[j].required {
                        proof {
                            lemma_first_missing_hit(channels.list@, self.entries@, j as int);
                        }
                        return Err(
                            Error::MissingChannel { name: self.entries[j].name.clone() },
                        );
                    }
                },
                ResolvedChannel::Present { .. } => {},
            }
            resolved.push(slot);
            j = j + 1;
        }
        proof {
            lemma_first_missing_none(channels.list@, self.entries@);
        }
        Ok(resolved)
    }
}

} // verus!

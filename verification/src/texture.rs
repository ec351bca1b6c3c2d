use vstd::prelude::*;
use std::collections::HashMap;

verus! {

/// Internal texture format. The shader always sees a floating point
/// representation; `U[n]` channels have their minimum mapped to 0.0 and their
/// maximum to 1.0.
#[derive(Copy, Clone, Debug, PartialEq, Eq)]
pub enum TextureFormat {
    U8,
    U16,
    U8U8,
    U16U16,
    U10U10U10,
    U12U12U12,
    U16U16U16,
    U2U2U2U2,
    U4U4U4U4,
    U5U5U5U1,
    U8U8U8U8,
    U10U10U10U2,
    U12U12U12U12,
    U16U16U16U16,
    I16I16I16I16,
    F16,
    F16F16,
    F16F16F16F16,
    F32,
    F32F32,
    F32F32F32F32,
    F11F11F10,
}

/// The GPU texel formats textures are allocated with.
pub enum GpuFormat {
    R8Unorm,
    R16Uint,
    Rg8Unorm,
    Rg16Uint,
    Rgb10a2Unorm,
    Rgba8Unorm,
    Rgba16Uint,
    Rgba16Sint,
    R16Float,
    Rg16Float,
    Rgba16Float,
    R32Float,
    Rg32Float,
    Rgba32Float,
    Rg11b10Ufloat,
}

/// The GPU format a texture of the given format is allocated with; formats the GPU lacks
/// are approximated by a wider one.
pub open spec fn allocated_format(format: TextureFormat) -> GpuFormat {
    match format {
        TextureFormat::U8 => GpuFormat::R8Unorm,
        TextureFormat::U16 => GpuFormat::R16Uint,
        TextureFormat::U8U8 => GpuFormat::Rg8Unorm,
        TextureFormat::U16U16 => GpuFormat::Rg16Uint,
        TextureFormat::U10U10U10 => GpuFormat::Rgb10a2Unorm,
        TextureFormat::U12U12U12 => GpuFormat::Rgba8Unorm,
        TextureFormat::U16U16U16 => GpuFormat::Rgba16Uint,
        TextureFormat::U2U2U2U2 => GpuFormat::Rgba8Unorm,
        TextureFormat::U4U4U4U4 => GpuFormat::Rgba8Unorm,
        TextureFormat::U5U5U5U1 => GpuFormat::Rgba8Unorm,
        TextureFormat::U8U8U8U8 => GpuFormat::Rgba8Unorm,
        TextureFormat::U10U10U10U2 => GpuFormat::Rgb10a2Unorm,
        TextureFormat::U12U12U12U12 => GpuFormat::Rgba16Uint,
        TextureFormat::U16U16U16U16 => GpuFormat::Rgba16Uint,
        TextureFormat::I16I16I16I16 => GpuFormat::Rgba16Sint,
        TextureFormat::F16 => GpuFormat::R16Float,
        TextureFormat::F16F16 => GpuFormat::Rg16Float,
        TextureFormat::F16F16F16F16 => GpuFormat::Rgba16Float,
        TextureFormat::F32 => GpuFormat::R32Float,
        TextureFormat::F32F32 => GpuFormat::Rg32Float,
        TextureFormat::F32F32F32F32 => GpuFormat::Rgba32Float,
        TextureFormat::F11F11F10 => GpuFormat::Rg11b10Ufloat,
    }
}

/// Number of channels of a GPU format.
pub open spec fn gpu_channels(g: GpuFormat) -> nat {
    match g {
        GpuFormat::R8Unorm | GpuFormat::R16Uint | GpuFormat::R16Float | GpuFormat::R32Float => 1,
        GpuFormat::Rg8Unorm | GpuFormat::Rg16Uint | GpuFormat::Rg16Float | GpuFormat::Rg32Float => 2,
        GpuFormat::Rg11b10Ufloat => 3,
        _ => 4,
    }
}

/// Number of bits of one texel of a GPU format: its channels times the channel width; the
/// packed formats (10-10-10-2 and 11-11-10) fill 32 bits.
pub open spec fn gpu_texel_bits(g: GpuFormat) -> nat {
    match g {
        GpuFormat::Rgb10a2Unorm | GpuFormat::Rg11b10Ufloat => 32,
        GpuFormat::R8Unorm | GpuFormat::Rg8Unorm | GpuFormat::Rgba8Unorm => 8 * gpu_channels(g),
        GpuFormat::R32Float | GpuFormat::Rg32Float | GpuFormat::Rgba32Float => 32 * gpu_channels(g),
        _ => 16 * gpu_channels(g),
    }
}

/// Number of bytes of a texel of the GPU format a texture of the given format is allocated
/// with: one byte per 8-bit channel, two per 16-bit channel (half floats included), four per
/// 32-bit float channel; packed and approximated formats are allocated as 4-byte RGBA, 10-bit
/// and 11-bit packed formats as 4 bytes, 12-bit RGBA and 16-bit RGB(A) as 8 bytes.
pub open spec fn spec_bytes_per_pixel(format: TextureFormat) -> u32 {
    match format {
        TextureFormat::U8 => 1,
        TextureFormat::U8U8 | TextureFormat::U16 | TextureFormat::F16 => 2,
        TextureFormat::U16U16U16 | TextureFormat::U12U12U12U12 | TextureFormat::U16U16U16U16
        | TextureFormat::I16I16I16I16 | TextureFormat::F16F16F16F16 | TextureFormat::F32F32 => 8,
        TextureFormat::F32F32F32F32 => 16,
        _ => 4,
    }
}

/// Returns the number of bytes per texel used when uploading data of the given format: the
/// texel size of the GPU format the texture is allocated with.
pub fn bytes_per_pixel_for(format: TextureFormat) -> (r: u32)
    ensures
        r == spec_bytes_per_pixel(format),
        r * 8 == gpu_texel_bits(allocated_format(format)),
{
    match format {
        TextureFormat::U8 => 1,
        TextureFormat::U8U8 | TextureFormat::U16 | TextureFormat::F16 => 2,
        TextureFormat::U8U8U8U8 | TextureFormat::U10U10U10U2 | TextureFormat::U10U10U10
        | TextureFormat::U12U12U12 | TextureFormat::U2U2U2U2 | TextureFormat::U4U4U4U4
        | TextureFormat::U5U5U5U1 => 4,
        TextureFormat::U16U16 | TextureFormat::F16F16 | TextureFormat::F32 => 4,
        TextureFormat::U16U16U16 | TextureFormat::U12U12U12U12 | TextureFormat::U16U16U16U16
        | TextureFormat::I16I16I16I16 | TextureFormat::F16F16F16F16 | TextureFormat::F32F32 => 8,
        TextureFormat::F11F11F10 => 4,
        TextureFormat::F32F32F32F32 => 16,
    }
}

/// Texture minify- or magnify filtering function.
#[derive(Copy, Clone, Debug, PartialEq, Eq, Structural)]
pub enum TextureFilter {
    /// All nearby texels will be loaded and their values will be merged.
    Linear,
    /// The nearest texel will be loaded.
    Nearest,
}

/// Texture wrapping function.
#[derive(Copy, Clone, Debug, PartialEq, Eq, Structural)]
pub enum TextureWrap {
    /// Samples at coord x + 1 map to coord x.
    Repeat,
    /// Samples at coord x + 1 map to coord 1 - x.
    Mirror,
    /// Samples at coord x + 1 map to coord 1.
    Clamp,
    /// Same as Mirror, but only for one repetition.
    MirrorClamp,
}

/// Individual texture frame.
#[derive(Clone, Debug)]
pub struct RawFrame {
    pub data: Vec<u8>,
    pub width: u32,
    pub height: u32,
    pub channels: u8,
}

/// Individual texture of a texture array.
#[derive(Clone, Debug)]
pub struct RenderContextTexture {
    pub data: Vec<u8>,
    pub width: u32,
    pub height: u32,
}

/// Raw frames of one texture array, and whether the array needs to be rebuilt from them.
pub struct RawFrameArray {
    pub dirty: bool,
    pub raw: Vec<RawFrame>,
}

impl RawFrameArray {
    /// Creates an empty array that does not need a rebuild.
    pub fn new() -> (r: RawFrameArray)
        ensures
            !r.dirty,
            r.raw@.len() == 0,
    {
        RawFrameArray { dirty: false, raw: Vec::new() }
    }

    /// Stores the given frames after the existing ones and returns the texture id of the
    /// first of them (the previous number of frames, truncated to `u32`).
    pub fn store_frames(&mut self, raw_frames: Vec<RawFrame>) -> (r: u32)
        ensures
            r == old(self).raw@.len() as u32,
            final(self).raw@ == old(self).raw@ + raw_frames@,
            final(self).dirty,
    {
        let texture_id = self.raw.len() as u32;
        let mut frames = raw_frames;
        self.raw.append(&mut frames);
        self.dirty = true;
        texture_id
    }

    /// Marks the array as rebuilt and returns whether it needed a rebuild.
    pub fn update(&mut self) -> (r: bool)
        ensures
            r == old(self).dirty,
            !final(self).dirty,
            final(self).raw == old(self).raw,
    {
        let dirty = self.dirty;
        self.dirty = false;
        dirty
    }
}

/// The texture id ranges `(first id, number of ids)` of the sprites that are still alive,
/// in the order they are listed.
pub open spec fn live_ranges(ranges: Seq<Option<(usize, usize)>>) -> Seq<(usize, usize)>
    decreases ranges.len(),
{
    if ranges.len() == 0 {
        Seq::empty()
    } else {
        let rest = live_ranges(ranges.drop_last());
        match ranges.last() {
            Some(r) => rest.push(r),
            None => rest,
        }
    }
}

/// Number of ranges in `t` that start at or before `start`.
pub open spec fn count_starting_by(t: Seq<(usize, usize)>, start: usize) -> nat
    decreases t.len(),
{
    if t.len() == 0 {
        0
    } else {
        count_starting_by(t.drop_last(), start) + (if t.last().0 <= start {
            1nat
        } else {
            0nat
        })
    }
}

/// `t` with `x` inserted after every range that starts at or before `x`.
pub open spec fn insert_by_start(t: Seq<(usize, usize)>, x: (usize, usize)) -> Seq<(usize, usize)> {
    let k = count_starting_by(t, x.0) as int;
    t.take(k).push(x) + t.skip(k)
}

/// The ranges sorted by start, keeping the listed order among equal starts.
pub open spec fn sort_by_start(s: Seq<(usize, usize)>) -> Seq<(usize, usize)>
    decreases s.len(),
{
    if s.len() == 0 {
        s
    } else {
        insert_by_start(sort_by_start(s.drop_last()), s.last())
    }
}

/// Total number of ids in the first `i` ranges.
pub open spec fn ids_before(s: Seq<(usize, usize)>, i: int) -> int
    decreases i,
{
    if i <= 0 {
        0
    } else {
        ids_before(s, i - 1) + s[i - 1].1
    }
}

/// Whether the prune map can be computed: no range starts before the ids of the ranges
/// sorted in front of it end, and the total number of ids fits in `usize`.
pub open spec fn prune_map_fits(ranges: Seq<Option<(usize, usize)>>) -> bool {
    let s = sort_by_start(live_ranges(ranges));
    &&& forall|i: int| 0 <= i < s.len() ==> ids_before(s, i) <= #[trigger] s[i].0
    &&& ids_before(s, s.len() as int) <= usize::MAX
}

/// The prune map: each live range's start, with the number of ids that are no longer
/// used in front of it, sorted by start.
pub open spec fn prune_map(ranges: Seq<Option<(usize, usize)>>) -> Seq<(usize, usize)> {
    map_of_sorted(sort_by_start(live_ranges(ranges)))
}

/// Each range's start, with the number of ids in front of it that the ranges before it
/// in `s` do not use.
pub open spec fn map_of_sorted(s: Seq<(usize, usize)>) -> Seq<(usize, usize)> {
    Seq::new(s.len(), |i: int| (s[i].0, (s[i].0 - ids_before(s, i)) as usize))
}

proof fn lemma_ids_before_grows(s: Seq<(usize, usize)>, i: int, j: int)
    requires
        0 <= i <= j <= s.len(),
    ensures
        0 <= ids_before(s, i) <= ids_before(s, j),
    decreases j,
{
    if i < j {
        lemma_ids_before_grows(s, i, j - 1);
    } else if i > 0 {
        lemma_ids_before_grows(s, i - 1, i - 1);
    }
}

/// The ranges of the sprites that are still alive, in the order they are listed.
fn collect_live(ranges: &Vec<Option<(usize, usize)>>) -> (live: Vec<(usize, usize)>)
    ensures
        live@ == live_ranges(ranges@),
{
    let mut live: Vec<(usize, usize)> = Vec::new();
    let mut i: usize = 0;
    while i < ranges.len()
        invariant
            i <= ranges@.len(),
            live@ == live_ranges(ranges@.take(i as int)),
        decreases ranges@.len() - i,
    {
        assert(ranges@.take(i + 1).drop_last() =~= ranges@.take(i as int));
        match ranges[i] {
            Some(range) => live.push(range),
            None => {},
        }
        i = i + 1;
    }
    assert(ranges@.take(ranges@.len() as int) =~= ranges@);
    live
}

/// Tests whether the live sprite ranges share no texture id and each holds at least one id
/// within the first `raw_len` ids. Pruning is possible for such ranges
/// (see [`lemma_disjoint_ranges_prune`]): where this returns true, [`RawFrameArray::prune`]
/// can be called for an array of `raw_len` frames.
pub fn sprite_ranges_fit(raw_len: usize, ranges: &Vec<Option<(usize, usize)>>) -> (r: bool)
    ensures
        r == (ranges_disjoint(live_ranges(ranges@)) && ranges_within(live_ranges(ranges@), raw_len as int)),
        r ==> prune_map_fits(ranges@),
        r ==> (prune_map(ranges@).len() > 0 ==> prune_fits(raw_len as int, prune_map(ranges@))),
{
    let fits = ranges_disjoint_within(raw_len, ranges);
    proof {
        if fits {
            lemma_sort_by_start(live_ranges(ranges@));
            if live_ranges(ranges@).len() > 0 {
                lemma_disjoint_ranges_prune(raw_len as int, ranges@);
            } else {
                assert(sort_by_start(live_ranges(ranges@)).len() == 0);
            }
        }
    }
    fits
}

fn ranges_disjoint_within(raw_len: usize, ranges: &Vec<Option<(usize, usize)>>) -> (r: bool)
    ensures
        r == (ranges_disjoint(live_ranges(ranges@)) && ranges_within(live_ranges(ranges@), raw_len as int)),
{
    let live = collect_live(ranges);
    let n = live.len();
    let mut i: usize = 0;
    while i < n
        invariant
            live@ == live_ranges(ranges@),
            n == live@.len(),
            i <= n,
            forall|a: int| 0 <= a < i ==> 1 <= #[trigger] live@[a].1 && live@[a].0 + live@[a].1 <= raw_len,
            forall|a: int, b: int|
                0 <= a < i && 0 <= b < n && a != b ==> ranges_apart(#[trigger] live@[a], #[trigger] live@[b]),
        decreases n - i,
    {
        let x = live[i];
        if x.1 == 0 || (x.0 as u128) + (x.1 as u128) > raw_len as u128 {
            assert(!(1 <= live@[i as int].1 && live@[i as int].0 + live@[i as int].1 <= raw_len));
            assert(!ranges_within(live@, raw_len as int));
            return false;
        }
        let mut j: usize = 0;
        while j < n
            invariant
                live@ == live_ranges(ranges@),
                n == live@.len(),
                i < n,
                j <= n,
                x == live@[i as int],
                forall|b: int| 0 <= b < j && b != i ==> ranges_apart(x, #[trigger] live@[b]),
            decreases n - j,
        {
            let y = live[j];
            if j != i && (x.0 as u128) + (x.1 as u128) > y.0 as u128 && (y.0 as u128) + (y.1 as u128)
                > x.0 as u128 {
                assert(!ranges_apart(live@[i as int], live@[j as int]));
                assert(!ranges_disjoint(live@));
                return false;
            }
            j = j + 1;
        }
        i = i + 1;
    }
    true
}

/// Returns, for the sprites still alive (`Some((first texture id, number of ids))`), each
/// sprite's first texture id with the number of unused ids in front of it, sorted by
/// texture id; `None` if no sprite is alive.
pub fn create_prune_map(ranges: &Vec<Option<(usize, usize)>>) -> (r: Option<Vec<(usize, usize)>>)
    requires
        prune_map_fits(ranges@),
    ensures
        match r {
            Some(m) => m@ == prune_map(ranges@) && m@.len() > 0,
            None => prune_map(ranges@).len() == 0,
        },
{
    let live = collect_live(ranges);
    // stable insertion sort by start
    let mut sorted: Vec<(usize, usize)> = Vec::new();
    let mut j: usize = 0;
    while j < live.len()
        invariant
            j <= live@.len(),
            sorted@ == sort_by_start(live@.take(j as int)),
        decreases live@.len() - j,
    {
        let x = live[j];
        let mut k: usize = 0;
        let mut n: usize = 0;
        while n < sorted.len()
            invariant
                n <= sorted@.len(),
                k <= n,
                k == count_starting_by(sorted@.take(n as int), x.0),
            decreases sorted@.len() - n,
        {
            assert(sorted@.take(n + 1).drop_last() =~= sorted@.take(n as int));
            if sorted[n].0 <= x.0 {
                k = k + 1;
            }
            n = n + 1;
        }
        assert(sorted@.take(sorted@.len() as int) =~= sorted@);
        let ghost before = sorted@;
        sorted.insert(k, x);
        assert(live@.take(j + 1).drop_last() =~= live@.take(j as int));
        assert(sorted@ =~= insert_by_start(before, x));
        j = j + 1;
    }
    assert(live@.take(live@.len() as int) =~= live@);
    if sorted.len() == 0 {
        return None;
    }
    // replace each length by the number of unused ids in front of the range
    let ghost s = sorted@;
    let mut num_items: usize = 0;
    let mut m: usize = 0;
    while m < sorted.len()
        invariant
            s == sort_by_start(live_ranges(ranges@)),
            sorted@.len() == s.len(),
            m <= s.len(),
            num_items == ids_before(s, m as int),
            forall|q: int| 0 <= q < s.len() ==> ids_before(s, q) <= #[trigger] s[q].0,
            ids_before(s, s.len() as int) <= usize::MAX,
            forall|q: int| 0 <= q < m ==> #[trigger] sorted@[q] == (s[q].0, (s[q].0 - ids_before(s, q)) as usize),
            forall|q: int| m <= q < s.len() ==> #[trigger] sorted@[q] == s[q],
        decreases s.len() - m,
    {
        proof {
            lemma_ids_before_grows(s, m + 1, s.len() as int);
        }
        let entry = sorted[m];
        let items = entry.1;
        sorted.set(m, (entry.0, entry.0 - num_items));
        num_items = num_items + items;
        m = m + 1;
    }
    assert(sorted@ =~= prune_map(ranges@));
    Some(sorted)
}

proof fn lemma_count_splits(t: Seq<(usize, usize)>, x: (usize, usize))
    requires
        forall|i: int, j: int| 0 <= i <= j < t.len() ==> t[i].0 <= t[j].0,
    ensures
        count_starting_by(t, x.0) <= t.len(),
        forall|i: int| 0 <= i < count_starting_by(t, x.0) ==> t[i].0 <= x.0,
        forall|i: int| count_starting_by(t, x.0) <= i < t.len() ==> t[i].0 > x.0,
    decreases t.len(),
{
    if t.len() > 0 {
        let u = t.drop_last();
        lemma_count_splits(u, x);
        let c = count_starting_by(t, x.0) as int;
        if t.last().0 <= x.0 {
            assert(count_starting_by(u, x.0) == u.len()) by {
                if count_starting_by(u, x.0) < u.len() {
                    let d = count_starting_by(u, x.0) as int;
                    assert(u[d].0 > x.0);
                    assert(t[d].0 <= t[t.len() - 1].0);
                }
            }
            assert forall|i: int| 0 <= i < c implies t[i].0 <= x.0 by {
                assert(t[i].0 <= t[t.len() - 1].0);
            }
        } else {
            assert forall|i: int| 0 <= i < c implies t[i].0 <= x.0 by {
                assert(u[i] == t[i]);
            }
            assert forall|i: int| c <= i < t.len() implies t[i].0 > x.0 by {
                if i < u.len() {
                    assert(u[i] == t[i]);
                }
            }
        }
    }
}

/// Sorting by start keeps every range, as often as it occurs, and orders the ranges by start.
pub proof fn lemma_sort_by_start(s: Seq<(usize, usize)>)
    ensures
        sort_by_start(s).len() == s.len(),
        sort_by_start(s).to_multiset() == s.to_multiset(),
        forall|i: int, j: int|
            0 <= i <= j < s.len() ==> sort_by_start(s)[i].0 <= sort_by_start(s)[j].0,
    decreases s.len(),
{
    broadcast use vstd::seq_lib::to_multiset_insert, vstd::seq_lib::to_multiset_build;

    if s.len() > 0 {
        let t = sort_by_start(s.drop_last());
        let x = s.last();
        lemma_sort_by_start(s.drop_last());
        lemma_count_splits(t, x);
        let k = count_starting_by(t, x.0) as int;
        assert(insert_by_start(t, x) =~= t.insert(k, x));
        assert(s =~= s.drop_last().push(x));
        let r = t.insert(k, x);
        assert forall|i: int, j: int| 0 <= i <= j < s.len() implies r[i].0 <= r[j].0 by {
            if i < k && j > k {
                assert(r[j] == t[j - 1]);
            } else if i < k && j == k {
            } else if i == k && j > k {
                assert(r[j] == t[j - 1]);
            } else if i > k {
                assert(r[i] == t[i - 1] && r[j] == t[j - 1]);
            }
        }
    }
}

/// The prune map lists every live sprite range once, with its first texture id, sorted by
/// texture id.
pub proof fn lemma_prune_map_sorted(ranges: Seq<Option<(usize, usize)>>)
    ensures
        prune_map(ranges).len() == live_ranges(ranges).len(),
        forall|i: int, j: int|
            0 <= i <= j < prune_map(ranges).len() ==> prune_map(ranges)[i].0 <= prune_map(
                ranges,
            )[j].0,
        sort_by_start(live_ranges(ranges)).to_multiset() == live_ranges(ranges).to_multiset(),
        forall|i: int|
            0 <= i < prune_map(ranges).len() ==> prune_map(ranges)[i].0 == sort_by_start(
                live_ranges(ranges),
            )[i].0,
{
    lemma_sort_by_start(live_ranges(ranges));
}

/// `s` with the elements at `i` and `j` exchanged.
pub open spec fn swapped<A>(s: Seq<A>, i: int, j: int) -> Seq<A> {
    s.update(i, s[j]).update(j, s[i])
}

/// Exchanges the elements at `i` and `j` of the vector by calling std's slice method
/// `swap` through the vector. Trusted: the contract claims what std documents, that the two
/// elements trade places and nothing else changes; std panics on an index out of bounds,
/// which the `requires` rules out.
#[verifier::external_body]
fn vec_swap<A>(v: &mut Vec<A>, i: usize, j: usize)
    requires
        i < old(v)@.len(),
        j < old(v)@.len(),
    ensures
        final(v)@ == swapped(old(v)@, i as int, j as int),
{
    v.swap(i, j)
}

/// The new number of raw frames after pruning with the given map: the frames in front of
/// the last live range lose their unused ids.
pub open spec fn pruned_len(raw_len: int, mapping: Seq<(usize, usize)>) -> int {
    raw_len - mapping.last().1
}

/// Where the moves for map entry `m` stop: the next entry's first id, or, for the last
/// entry, the end of the frames.
pub open spec fn segment_end(raw_len: int, mapping: Seq<(usize, usize)>, m: int) -> int {
    if m + 1 < mapping.len() {
        mapping[m + 1].0 as int
    } else {
        raw_len
    }
}

/// `s` after moving each element at `i .. end` back by `offset`, in increasing order,
/// each move exchanging the element with the one at its destination.
pub open spec fn shift_back<A>(s: Seq<A>, i: int, end: int, offset: int) -> Seq<A>
    decreases end - i,
{
    if i >= end {
        s
    } else {
        shift_back(swapped(s, i, i - offset), i + 1, end, offset)
    }
}

/// `s` after the moves of the first `m` map entries.
pub open spec fn shift_segments<A>(s: Seq<A>, raw_len: int, mapping: Seq<(usize, usize)>, m: int) -> Seq<A>
    decreases m,
{
    if m <= 0 {
        s
    } else {
        shift_back(
            shift_segments(s, raw_len, mapping, m - 1),
            mapping[m - 1].0 as int,
            segment_end(raw_len, mapping, m - 1),
            mapping[m - 1].1 as int,
        )
    }
}

/// Whether pruning with the map stays within the frames: the map is not empty, leaves at
/// least one frame, and every entry's moves read and write existing frames.
pub open spec fn prune_fits(raw_len: int, mapping: Seq<(usize, usize)>) -> bool {
    &&& mapping.len() > 0
    &&& mapping.last().1 <= raw_len
    &&& forall|m: int|
        0 <= m < mapping.len() ==> {
            &&& #[trigger] mapping[m].1 <= mapping[m].0
            &&& segment_end(raw_len, mapping, m) <= raw_len
        }
}

proof fn lemma_shift_back_len<A>(s: Seq<A>, i: int, end: int, offset: int)
    requires
        0 <= offset <= i,
        end <= s.len(),
    ensures
        shift_back(s, i, end, offset).len() == s.len(),
    decreases end - i,
{
    if i < end {
        lemma_shift_back_len(swapped(s, i, i - offset), i + 1, end, offset);
    }
}

proof fn lemma_shift_segments_len<A>(s: Seq<A>, raw_len: int, mapping: Seq<(usize, usize)>, m: int)
    requires
        s.len() == raw_len,
        prune_fits(raw_len, mapping),
        m <= mapping.len(),
    ensures
        shift_segments(s, raw_len, mapping, m).len() == raw_len,
    decreases m,
{
    if m > 0 {
        lemma_shift_segments_len(s, raw_len, mapping, m - 1);
        assert(mapping[m - 1].1 <= mapping[m - 1].0);
        lemma_shift_back_len(
            shift_segments(s, raw_len, mapping, m - 1),
            mapping[m - 1].0 as int,
            segment_end(raw_len, mapping, m - 1),
            mapping[m - 1].1 as int,
        );
    }
}

impl RawFrameArray {
    /// Shrinks the raw frames using the given prune map (see [`create_prune_map`]) and
    /// returns a map from each entry's old first texture id to its new one. Each entry's
    /// frames, up to the next entry's first id (for the last entry: up to the end of the
    /// frames), are moved back by the entry's number of unused ids; then the frames are
    /// truncated to the new number.
    pub fn prune_raw_textures(&mut self, mapping: &Vec<(usize, usize)>) -> (r: HashMap<usize, usize>)
        requires
            prune_fits(old(self).raw@.len() as int, mapping@),
        ensures
            final(self).raw@ == shift_segments(
                old(self).raw@,
                old(self).raw@.len() as int,
                mapping@,
                mapping@.len() as int,
            ).take(pruned_len(old(self).raw@.len() as int, mapping@)),
            final(self).dirty == old(self).dirty,
            r@ == destination_map(mapping@),
    {
        broadcast use vstd::std_specs::hash::group_hash_axioms;

        let ghost raw0 = self.raw@;
        let ghost raw_len = self.raw@.len() as int;
        let count = mapping.len();
        let old_size = self.raw.len();
        let new_size = old_size - mapping[count - 1].1;
        let mut id_map: HashMap<usize, usize> = HashMap::new();
        let mut m: usize = 0;
        while m < count
            invariant
                count == mapping@.len(),
                prune_fits(raw_len, mapping@),
                raw_len == raw0.len(),
                new_size == pruned_len(raw_len, mapping@),
                old_size == raw_len,
                m <= count,
                self.raw@ == shift_segments(raw0, raw_len, mapping@, m as int),
                self.raw@.len() == raw_len,
                self.dirty == old(self).dirty,
                id_map@ == destination_map(mapping@.take(m as int)),
            decreases count - m,
        {
            let start = mapping[m].0;
            let offset = mapping[m].1;
            assert(mapping@[m as int].1 <= mapping@[m as int].0);
            id_map.insert(start, start - offset);
            assert(mapping@.take(m + 1).drop_last() =~= mapping@.take(m as int));
            let end = if m + 1 < count {
                mapping[m + 1].0
            } else {
                old_size
            };
            assert(end == segment_end(raw_len, mapping@, m as int));
            let ghost seg_start = self.raw@;
            let mut i = start;
            while i < end
                invariant
                    start <= i,
                    i <= end || end <= start,
                    end <= raw_len,
                    offset <= start,
                    self.raw@.len() == raw_len,
                    self.dirty == old(self).dirty,
                    shift_back(self.raw@, i as int, end as int, offset as int) == shift_back(
                        seg_start,
                        start as int,
                        end as int,
                        offset as int,
                    ),
                decreases end - i,
            {
                let destination_index = i - offset;
                vec_swap(&mut self.raw, i, destination_index);
                i = i + 1;
            }
            proof {
                lemma_shift_segments_len(raw0, raw_len, mapping@, m as int);
            }
            m = m + 1;
        }
        self.raw.truncate(new_size);
        assert(mapping@.take(count as int) =~= mapping@);
        id_map
    }
}

/// The map from each entry's old first texture id to its new one that pruning with the map
/// returns; where an old id occurs more than once, the last entry counts.
pub open spec fn destination_map(mapping: Seq<(usize, usize)>) -> Map<usize, usize>
    decreases mapping.len(),
{
    if mapping.len() == 0 {
        Map::empty()
    } else {
        destination_map(mapping.drop_last()).insert(
            mapping.last().0,
            (mapping.last().0 - mapping.last().1) as usize,
        )
    }
}

/// A sprite's texture id after pruning with the given map: the new first id paired with its
/// old one, or the old one where none is.
pub open spec fn id_after_prune(mapping: Seq<(usize, usize)>, texture_id: usize) -> usize {
    if destination_map(mapping).contains_key(texture_id) {
        destination_map(mapping)[texture_id]
    } else {
        texture_id
    }
}

impl RawFrameArray {
    /// Prunes the frames that no live sprite uses. `ranges` holds, for each registered sprite,
    /// its texture id range `(first id, number of ids)`, or `None` where the sprite was
    /// dropped. Returns each live sprite's texture id after pruning (its new first id), and
    /// `None` for dropped sprites. With no live sprite the frames stay as they are; otherwise
    /// the frames are pruned with the prune map and the array is marked for a rebuild.
    pub fn prune(&mut self, ranges: &Vec<Option<(usize, usize)>>) -> (r: Vec<Option<usize>>)
        requires
            prune_map_fits(ranges@),
            prune_map(ranges@).len() > 0 ==> prune_fits(old(self).raw@.len() as int, prune_map(ranges@)),
        ensures
            ({
                let m = prune_map(ranges@);
                &&& m.len() > 0 ==> final(self).raw@ == shift_segments(
                    old(self).raw@,
                    old(self).raw@.len() as int,
                    m,
                    m.len() as int,
                ).take(pruned_len(old(self).raw@.len() as int, m)) && final(self).dirty
                &&& m.len() == 0 ==> final(self).raw@ == old(self).raw@ && final(self).dirty == old(self).dirty
                &&& r@.len() == ranges@.len()
                &&& forall|i: int|
                    0 <= i < ranges@.len() ==> #[trigger] r@[i] == match ranges@[i] {
                        Some(range) => Some(
                            if m.len() > 0 {
                                id_after_prune(m, range.0)
                            } else {
                                range.0
                            },
                        ),
                        None => None,
                    }
            }),
    {
        let ghost m = prune_map(ranges@);
        let pairs = match create_prune_map(ranges) {
            Some(mapping) => {
                let pairs = self.prune_raw_textures(&mapping);
                self.dirty = true;
                Some(pairs)
            },
            None => None,
        };
        let mut ids: Vec<Option<usize>> = Vec::new();
        let mut i: usize = 0;
        while i < ranges.len()
            invariant
                i <= ranges@.len(),
                ids@.len() == i,
                m == prune_map(ranges@),
                match pairs {
                    Some(p) => p@ == destination_map(m) && m.len() > 0,
                    None => m.len() == 0,
                },
                forall|q: int|
                    0 <= q < i ==> #[trigger] ids@[q] == match ranges@[q] {
                        Some(range) => Some(
                            if m.len() > 0 {
                                id_after_prune(m, range.0)
                            } else {
                                range.0
                            },
                        ),
                        None => None,
                    },
            decreases ranges@.len() - i,
        {
            let id = match ranges[i] {
                Some(range) => match &pairs {
                    Some(p) => match p.get(&range.0) {
                        Some(n) => Some(*n),
                        None => Some(range.0),
                    },
                    None => Some(range.0),
                },
                None => None,
            };
            ids.push(id);
            i = i + 1;
        }
        ids
    }
}

/// The items at positions `i ..` of `s` whose flag in `alive` is set, in order.
pub open spec fn live_from<T>(s: Seq<T>, alive: Seq<bool>, i: int) -> Seq<T>
    decreases s.len() - i,
{
    if i < 0 || i >= s.len() {
        Seq::empty()
    } else if alive[i] {
        seq![s[i]] + live_from(s, alive, i + 1)
    } else {
        live_from(s, alive, i + 1)
    }
}

/// `s` after removing, from the highest position down to position `i`, each item whose
/// flag in `alive` is not set by moving the last item into its place.
pub open spec fn dropped_removed<T>(s: Seq<T>, alive: Seq<bool>, i: int) -> Seq<T>
    decreases s.len() - i,
{
    if i < 0 || i >= s.len() {
        s
    } else {
        let t = dropped_removed(s, alive, i + 1);
        if alive[i] {
            t
        } else {
            t.update(i, t.last()).drop_last()
        }
    }
}

/// Removes the back-references of dropped sprites (those whose flag in `alive` is not set),
/// from the highest position down, each by moving the last reference into its place. What
/// stays are exactly the references of the live sprites.
pub fn remove_dropped<T>(refs: &mut Vec<T>, alive: &Vec<bool>)
    requires
        alive@.len() == old(refs)@.len(),
    ensures
        final(refs)@ == dropped_removed(old(refs)@, alive@, 0),
        final(refs)@.to_multiset() == live_from(old(refs)@, alive@, 0).to_multiset(),
        final(refs)@.len() == live_from(old(refs)@, alive@, 0).len(),
{
    broadcast use vstd::multiset::group_multiset_axioms;
    broadcast use vstd::seq_lib::group_to_multiset_ensures, vstd::seq_lib::lemma_multiset_commutative;

    let ghost s = refs@;
    let mut i = refs.len();
    assert(s.subrange(0, i as int) =~= s);
    assert(live_from(s, alive@, i as int) =~= Seq::<T>::empty());
    assert forall|a: T| Seq::<T>::empty().to_multiset().count(a) == 0 by {
        assert(!Seq::<T>::empty().contains(a));
    }
    assert(refs@.to_multiset() =~= s.subrange(0, i as int).to_multiset().add(
        live_from(s, alive@, i as int).to_multiset(),
    ));
    while i > 0
        invariant
            i <= s.len(),
            alive@.len() == s.len(),
            refs@.len() >= i,
            refs@.subrange(0, i as int) == s.subrange(0, i as int),
            refs@ == dropped_removed(s, alive@, i as int),
            refs@.to_multiset() == s.subrange(0, i as int).to_multiset().add(
                live_from(s, alive@, i as int).to_multiset(),
            ),
        decreases i,
    {
        let q = i - 1;
        let ghost t = refs@;
        let ghost x = s[q as int];
        let ghost lm = live_from(s, alive@, i as int).to_multiset();
        assert(t == dropped_removed(s, alive@, q + 1));
        assert(t[q as int] == s.subrange(0, i as int)[q as int]);
        let ghost pre = s.subrange(0, q as int);
        assert(s.subrange(0, i as int) =~= pre.push(x));
        proof {
            vstd::seq_lib::to_multiset_build(pre, x);
        }
        if !alive[q] {
            refs.swap_remove(q);
            let ghost l = t.last();
            let ghost u = t.update(q as int, l);
            proof {
                assert(t.contains(x));
                vstd::seq_lib::to_multiset_contains(t, x);
                assert(t[t.len() - 1] == l);
                assert(t.contains(l));
                vstd::seq_lib::to_multiset_contains(t, l);
                vstd::seq_lib::to_multiset_update(t, q as int, l);
                assert(u.drop_last() =~= u.remove(u.len() - 1));
                assert(u[u.len() - 1] == l);
                vstd::seq_lib::to_multiset_remove(u, u.len() - 1);
            }
            assert(refs@.to_multiset() == u.to_multiset().remove(l));
            assert(refs@.to_multiset() =~= t.to_multiset().remove(x));
            assert(refs@.subrange(0, q as int) =~= s.subrange(0, q as int));
            assert(live_from(s, alive@, q as int) == live_from(s, alive@, i as int));
            assert(refs@.to_multiset() =~= s.subrange(0, q as int).to_multiset().add(lm));
        } else {
            assert(refs@.subrange(0, q as int) =~= s.subrange(0, q as int));
            let ghost single = seq![x];
            assert(single =~= Seq::<T>::empty().push(x));
            assert forall|a: T| Seq::<T>::empty().to_multiset().count(a) == 0 by {
                assert(!Seq::<T>::empty().contains(a));
                vstd::seq_lib::to_multiset_contains(Seq::<T>::empty(), a);
            }
            proof {
                vstd::seq_lib::to_multiset_build(Seq::<T>::empty(), x);
                vstd::seq_lib::lemma_multiset_commutative(single, live_from(s, alive@, i as int));
            }
            assert(single.to_multiset() =~= Seq::<T>::empty().to_multiset().insert(x));
            assert(live_from(s, alive@, q as int) == single + live_from(s, alive@, i as int));
            assert(refs@.to_multiset() =~= s.subrange(0, q as int).to_multiset().add(
                live_from(s, alive@, q as int).to_multiset(),
            ));
        }
        i = q;
    }
    assert(s.subrange(0, 0) =~= Seq::<T>::empty());
    assert forall|a: T| Seq::<T>::empty().to_multiset().count(a) == 0 by {
        assert(!Seq::<T>::empty().contains(a));
    }
    assert(refs@.to_multiset() =~= live_from(s, alive@, 0).to_multiset());
    assert(refs@.len() == refs@.to_multiset().len());
}

/// A texture builder: collects the parameters of a texture to create with the context `C`.
#[must_use]
#[derive(Clone)]
pub struct TextureBuilder<'a, C> {
    pub minify: TextureFilter,
    pub magnify: TextureFilter,
    pub wrap: TextureWrap,
    pub format: TextureFormat,
    pub width: u32,
    pub height: u32,
    pub file: Option<&'a str>,
    pub data: Option<RawFrame>,
    pub context: &'a C,
}

impl<'a, C> TextureBuilder<'a, C> {
    /// Creates a builder for a 1x1 texture with linear filtering, clamped wrapping and
    /// `F16F16F16F16` format, without file or data.
    pub fn new(context: &'a C) -> (r: TextureBuilder<'a, C>)
        ensures
            r.minify == TextureFilter::Linear,
            r.magnify == TextureFilter::Linear,
            r.wrap == TextureWrap::Clamp,
            r.format == TextureFormat::F16F16F16F16,
            r.width == 1,
            r.height == 1,
            r.file is None,
            r.data is None,
            r.context == context,
    {
        TextureBuilder {
            context,
            minify: TextureFilter::Linear,
            magnify: TextureFilter::Linear,
            wrap: TextureWrap::Clamp,
            format: TextureFormat::F16F16F16F16,
            width: 1,
            height: 1,
            file: None,
            data: None,
        }
    }

    /// Sets a width for the texture.
    pub fn width(self, width: u32) -> (r: Self)
        ensures
            r == (TextureBuilder { width, ..self }),
    {
        let mut b = self;
        b.width = width;
        b
    }

    /// Sets a height for the texture.
    pub fn height(self, height: u32) -> (r: Self)
        ensures
            r == (TextureBuilder { height, ..self }),
    {
        let mut b = self;
        b.height = height;
        b
    }

    /// Sets dimensions for the texture.
    pub fn dimensions(self, dimensions: (u32, u32)) -> (r: Self)
        ensures
            r == (TextureBuilder { width: dimensions.0, height: dimensions.1, ..self }),
    {
        let mut b = self;
        b.width = dimensions.0;
        b.height = dimensions.1;
        b
    }

    /// Sets a minification filter for the texture.
    pub fn minify(self, minify: TextureFilter) -> (r: Self)
        ensures
            r == (TextureBuilder { minify, ..self }),
    {
        let mut b = self;
        b.minify = minify;
        b
    }

    /// Sets a magnification filter for the texture.
    pub fn magnify(self, magnify: TextureFilter) -> (r: Self)
        ensures
            r == (TextureBuilder { magnify, ..self }),
    {
        let mut b = self;
        b.magnify = magnify;
        b
    }

    /// Sets a wrapping type for the texture.
    pub fn wrap(self, wrap: TextureWrap) -> (r: Self)
        ensures
            r == (TextureBuilder { wrap, ..self }),
    {
        let mut b = self;
        b.wrap = wrap;
        b
    }

    /// Sets an internal format for the texture.
    pub fn format(self, format: TextureFormat) -> (r: Self)
        ensures
            r == (TextureBuilder { format, ..self }),
    {
        let mut b = self;
        b.format = format;
        b
    }

    /// Sets a file to load the texture from.
    pub fn file(self, file: &'a str) -> (r: Self)
        ensures
            r == (TextureBuilder { file: Some(file), ..self }),
    {
        let mut b = self;
        b.file = Some(file);
        b
    }
}

/// The new first texture id of map entry `i`.
pub open spec fn new_id(mapping: Seq<(usize, usize)>, i: int) -> int {
    mapping[i].0 - mapping[i].1
}

/// Whether the map's first ids, unused-id counts and new first ids never decrease, as
/// for the map of sprites whose texture id ranges do not overlap.
pub open spec fn map_ordered(mapping: Seq<(usize, usize)>) -> bool {
    forall|i: int|
        0 <= i < mapping.len() - 1 ==> {
            &&& #[trigger] mapping[i].0 <= mapping[i + 1].0
            &&& mapping[i].1 <= mapping[i + 1].1
            &&& new_id(mapping, i) <= new_id(mapping, i + 1)
        }
}

proof fn lemma_shift_back_effect<A>(s: Seq<A>, a: int, e: int, off: int)
    requires
        0 <= off <= a,
        e <= s.len(),
    ensures
        shift_back(s, a, e, off).len() == s.len(),
        forall|j: int| a <= j < e ==> #[trigger] shift_back(s, a, e, off)[j - off] == s[j],
        forall|x: int| 0 <= x < a - off ==> #[trigger] shift_back(s, a, e, off)[x] == s[x],
        forall|x: int| e <= x < s.len() && a <= x ==> #[trigger] shift_back(s, a, e, off)[x] == s[x],
    decreases e - a,
{
    if a < e {
        let t = swapped(s, a, a - off);
        lemma_shift_back_effect(t, a + 1, e, off);
        let r = shift_back(s, a, e, off);
        assert(r == shift_back(t, a + 1, e, off));
        assert forall|j: int| a <= j < e implies #[trigger] r[j - off] == s[j] by {
            if j == a {
                assert(r[a - off] == t[a - off]);
            } else {
                assert(r[j - off] == t[j]);
            }
        }
        assert forall|x: int| 0 <= x < a - off implies #[trigger] r[x] == s[x] by {
            assert(r[x] == t[x]);
        }
        assert forall|x: int| e <= x < s.len() && a <= x implies #[trigger] r[x] == s[x] by {
            assert(r[x] == t[x]);
        }
    }
}

/// What the moves of the first `n` map entries have placed: the frames from entry `n`'s
/// first id on are untouched, every earlier entry but the last of them holds its frames
/// from its new first id up to the next entry's new first id, and the last of them holds
/// its frames from its new first id up to where its moves stopped.
spec fn segments_placed<A>(s0: Seq<A>, r: Seq<A>, mapping: Seq<(usize, usize)>, n: int) -> bool {
    &&& r.len() == s0.len()
    &&& n < mapping.len() ==> forall|x: int|
        mapping[n].0 <= x < s0.len() ==> #[trigger] r[x] == s0[x]
    &&& forall|i: int, x: int|
        #![trigger mapping[i], r[x]]
        0 <= i < n - 1 && new_id(mapping, i) <= x < new_id(mapping, i + 1) ==> r[x]
            == s0[x + mapping[i].1]
    &&& n >= 1 ==> forall|x: int|
        new_id(mapping, n - 1) <= x < segment_end(s0.len() as int, mapping, n - 1)
            - mapping[n - 1].1 ==> #[trigger] r[x] == s0[x + mapping[n - 1].1]
}

proof fn lemma_segment_step<A>(s0: Seq<A>, mapping: Seq<(usize, usize)>, n: int)
    requires
        prune_fits(s0.len() as int, mapping),
        map_ordered(mapping),
        1 <= n <= mapping.len(),
        segments_placed(s0, shift_segments(s0, s0.len() as int, mapping, n - 1), mapping, n - 1),
    ensures
        segments_placed(s0, shift_segments(s0, s0.len() as int, mapping, n), mapping, n),
{
    let len = s0.len() as int;
    let p = n - 1;
    let r0 = shift_segments(s0, len, mapping, p);
    let a = mapping[p].0 as int;
    let off = mapping[p].1 as int;
    let e = segment_end(len, mapping, p);
    assert(mapping[p].1 <= mapping[p].0);
    lemma_shift_back_effect(r0, a, e, off);
    let r = shift_segments(s0, len, mapping, n);
    assert(r == shift_back(r0, a, e, off));
    if n < mapping.len() {
        assert(mapping[p].0 <= mapping[p + 1].0);
        assert(e == mapping[n].0);
        assert forall|x: int| mapping[n].0 <= x < len implies #[trigger] r[x] == s0[x] by {
            assert(r[x] == r0[x]);
        }
    }
    assert forall|x: int|
        new_id(mapping, p) <= x < segment_end(len, mapping, p) - mapping[p].1 implies #[trigger] r[x]
        == s0[x + mapping[p].1] by {
        let j = x + off;
        assert(r[j - off] == r0[j]);
    }
    assert forall|i: int, x: int|
        #![trigger mapping[i], r[x]]
        0 <= i < n - 1 && new_id(mapping, i) <= x < new_id(mapping, i + 1) implies r[x]
        == s0[x + mapping[i].1] by {
        lemma_new_ids_ordered(mapping, i + 1, p);
        assert(x < a - off);
        assert(r[x] == r0[x]);
        if i == n - 2 {
            assert(mapping[i].0 <= mapping[i + 1].0);
            assert(mapping[i].1 <= mapping[i + 1].1);
        }
        assert(r0[x] == s0[x + mapping[i].1]);
    }
}

proof fn lemma_segments_effect<A>(s0: Seq<A>, mapping: Seq<(usize, usize)>, n: int)
    requires
        prune_fits(s0.len() as int, mapping),
        map_ordered(mapping),
        0 <= n <= mapping.len(),
    ensures
        segments_placed(s0, shift_segments(s0, s0.len() as int, mapping, n), mapping, n),
    decreases n,
{
    if n > 0 {
        lemma_segments_effect(s0, mapping, n - 1);
        lemma_segment_step(s0, mapping, n);
    }
}

proof fn lemma_new_ids_ordered(mapping: Seq<(usize, usize)>, i: int, j: int)
    requires
        map_ordered(mapping),
        0 <= i <= j < mapping.len(),
    ensures
        new_id(mapping, i) <= new_id(mapping, j),
    decreases j - i,
{
    if i < j {
        lemma_new_ids_ordered(mapping, i, j - 1);
        assert(mapping[j - 1].0 <= mapping[j].0);
    }
}

/// Pruning moves the frames of every map entry to the entry's new first texture id: the
/// ids from an entry's new first id up to the next entry's new first id hold the entry's
/// frames, and for the last entry, the ids from its new first id up to the new number of
/// frames.
pub proof fn lemma_prune_places_segments<A>(raw: Seq<A>, mapping: Seq<(usize, usize)>)
    requires
        prune_fits(raw.len() as int, mapping),
        map_ordered(mapping),
        mapping.last().0 <= raw.len(),
    ensures
        ({
            let r = shift_segments(raw, raw.len() as int, mapping, mapping.len() as int).take(
                pruned_len(raw.len() as int, mapping),
            );
            let last = mapping.len() - 1;
            &&& forall|i: int, x: int|
                #![trigger mapping[i], r[x]]
                0 <= i < last && new_id(mapping, i) <= x < new_id(mapping, i + 1) ==> r[x]
                    == raw[x + mapping[i].1]
            &&& forall|x: int|
                new_id(mapping, last) <= x < pruned_len(raw.len() as int, mapping)
                    ==> #[trigger] r[x] == raw[x + mapping[last].1]
        }),
{
    let n = mapping.len() as int;
    lemma_segments_effect(raw, mapping, n);
    let full = shift_segments(raw, raw.len() as int, mapping, n);
    assert(segments_placed(raw, full, mapping, n));
    let r = full.take(pruned_len(raw.len() as int, mapping));
    assert forall|i: int, x: int|
        #![trigger mapping[i], r[x]]
        0 <= i < mapping.len() - 1 && new_id(mapping, i) <= x < new_id(mapping, i + 1) implies r[x]
        == raw[x + mapping[i].1] by {
        lemma_new_ids_ordered(mapping, i + 1, n - 1);
        assert(r[x] == full[x]);
        assert(full[x] == raw[x + mapping[i].1]);
    }
    let last = n - 1;
    assert forall|x: int|
        new_id(mapping, last) <= x < pruned_len(raw.len() as int, mapping) implies #[trigger] r[x]
        == raw[x + mapping[last].1] by {
        assert(segment_end(raw.len() as int, mapping, last) == raw.len());
        assert(r[x] == full[x]);
    }
}

/// Whether two texture id ranges `(first id, number of ids)` share no id.
pub open spec fn ranges_apart(a: (usize, usize), b: (usize, usize)) -> bool {
    a.0 + a.1 <= b.0 || b.0 + b.1 <= a.0
}

/// Whether no two of the ranges share an id.
pub open spec fn ranges_disjoint(l: Seq<(usize, usize)>) -> bool {
    forall|i: int, j: int|
        0 <= i < l.len() && 0 <= j < l.len() && i != j ==> ranges_apart(#[trigger] l[i], #[trigger] l[j])
}

/// Whether every range holds at least one id and lies within the first `len` ids.
pub open spec fn ranges_within(l: Seq<(usize, usize)>, len: int) -> bool {
    forall|i: int| 0 <= i < l.len() ==> 1 <= #[trigger] l[i].1 && l[i].0 + l[i].1 <= len
}

proof fn lemma_sort_members(s: Seq<(usize, usize)>)
    ensures
        sort_by_start(s).len() == s.len(),
        forall|i: int| 0 <= i < s.len() ==> s.contains(#[trigger] sort_by_start(s)[i]),
        ranges_disjoint(s) ==> ranges_disjoint(sort_by_start(s)),
    decreases s.len(),
{
    if s.len() > 0 {
        let d = s.drop_last();
        let x = s.last();
        lemma_sort_members(d);
        lemma_sort_by_start(d);
        let t = sort_by_start(d);
        lemma_count_splits(t, x);
        let k = count_starting_by(t, x.0) as int;
        let r = t.insert(k, x);
        assert(insert_by_start(t, x) =~= r);
        assert(sort_by_start(s) == r);
        assert forall|i: int| 0 <= i < s.len() implies s.contains(#[trigger] r[i]) by {
            if i < k {
                assert(r[i] == t[i]);
                assert(d.contains(t[i]));
                let p = choose|p: int| 0 <= p < d.len() && d[p] == t[i];
                assert(s[p] == d[p]);
            } else if i == k {
                assert(s[s.len() - 1] == x);
            } else {
                assert(r[i] == t[i - 1]);
                assert(d.contains(t[i - 1]));
                let p = choose|p: int| 0 <= p < d.len() && d[p] == t[i - 1];
                assert(s[p] == d[p]);
            }
        }
        if ranges_disjoint(s) {
            assert(ranges_disjoint(d)) by {
                assert forall|a: int, b: int|
                    0 <= a < d.len() && 0 <= b < d.len() && a != b implies ranges_apart(
                    #[trigger] d[a],
                    #[trigger] d[b],
                ) by {
                    assert(d[a] == s[a] && d[b] == s[b]);
                }
            }
            assert forall|j: int| 0 <= j < t.len() implies ranges_apart(x, #[trigger] t[j]) by {
                assert(d.contains(t[j]));
                let p = choose|p: int| 0 <= p < d.len() && d[p] == t[j];
                assert(s[p] == t[j]);
                assert(ranges_apart(s[s.len() - 1], s[p]));
            }
            assert forall|a: int, b: int|
                0 <= a < r.len() && 0 <= b < r.len() && a != b implies ranges_apart(
                #[trigger] r[a],
                #[trigger] r[b],
            ) by {
                let ta = if a < k { a } else { a - 1 };
                let tb = if b < k { b } else { b - 1 };
                if a == k {
                    assert(r[b] == t[tb]);
                    assert(ranges_apart(x, t[tb]));
                } else if b == k {
                    assert(r[a] == t[ta]);
                    assert(ranges_apart(x, t[ta]));
                } else {
                    assert(r[a] == t[ta] && r[b] == t[tb]);
                }
            }
        }
    }
}

/// Facts about the live ranges sorted by start when they are disjoint, non-empty and
/// within the frames: each ends before the next begins, and the ids in front of each range
/// do not exceed its first id.
proof fn lemma_sorted_ranges_apart(l: Seq<(usize, usize)>, len: int)
    requires
        0 <= len,
        ranges_disjoint(l),
        ranges_within(l, len),
    ensures
        ({
            let s = sort_by_start(l);
            &&& ranges_within(s, len)
            &&& forall|i: int| 0 <= i < s.len() - 1 ==> #[trigger] s[i].0 + s[i].1 <= s[i + 1].0
            &&& forall|i: int| 0 <= i < s.len() ==> ids_before(s, i) + s[i].1 <= #[trigger] s[i].0 + s[i].1
            &&& ids_before(s, s.len() as int) <= len
        }),
{
    let s = sort_by_start(l);
    lemma_sort_members(l);
    lemma_sort_by_start(l);
    assert forall|i: int| 0 <= i < s.len() implies 1 <= #[trigger] s[i].1 && s[i].0 + s[i].1 <= len by {
        assert(l.contains(s[i]));
        let p = choose|p: int| 0 <= p < l.len() && l[p] == s[i];
        assert(l[p] == s[i]);
    }
    assert forall|i: int| 0 <= i < s.len() - 1 implies #[trigger] s[i].0 + s[i].1 <= s[i + 1].0 by {
        assert(ranges_apart(s[i], s[i + 1]));
        assert(s[i].0 <= s[i + 1].0);
        assert(1 <= s[i + 1].1);
    }
    lemma_ids_before_bounded(s, len, s.len() as int);
}

proof fn lemma_ids_before_bounded(s: Seq<(usize, usize)>, len: int, n: int)
    requires
        0 <= len,
        ranges_within(s, len),
        forall|i: int| 0 <= i < s.len() - 1 ==> #[trigger] s[i].0 + s[i].1 <= s[i + 1].0,
        0 <= n <= s.len(),
    ensures
        forall|i: int| 0 <= i < n ==> ids_before(s, i) + s[i].1 <= #[trigger] s[i].0 + s[i].1,
        n > 0 ==> ids_before(s, n) <= s[n - 1].0 + s[n - 1].1,
        ids_before(s, n) <= len,
    decreases n,
{
    if n > 0 {
        lemma_ids_before_bounded(s, len, n - 1);
        if n > 1 {
            assert(s[n - 2].0 + s[n - 2].1 <= s[n - 1].0);
        }
        assert(ids_before(s, n) == ids_before(s, n - 1) + s[n - 1].1);
        assert(s[n - 1].0 + s[n - 1].1 <= len);
    }
}

/// Whether the ranges are sorted by start, each non-empty, within the first `len` ids and
/// ending before the next one begins.
#[verifier::opaque]
spec fn sorted_apart(s: Seq<(usize, usize)>, len: int) -> bool {
    &&& ranges_within(s, len)
    &&& forall|i: int, j: int| 0 <= i <= j < s.len() ==> s[i].0 <= s[j].0
    &&& forall|i: int| 0 <= i < s.len() - 1 ==> #[trigger] s[i].0 + s[i].1 <= s[i + 1].0
    &&& forall|i: int| 0 <= i < s.len() ==> ids_before(s, i) + s[i].1 <= #[trigger] s[i].0 + s[i].1
    &&& ids_before(s, s.len() as int) <= len
}

proof fn lemma_map_of_sorted_entry(s: Seq<(usize, usize)>, len: int, i: int)
    requires
        sorted_apart(s, len),
        0 <= i < s.len(),
    ensures
        map_of_sorted(s)[i].0 == s[i].0,
        map_of_sorted(s)[i].1 == s[i].0 - ids_before(s, i),
        new_id(map_of_sorted(s), i) == ids_before(s, i),
        0 <= ids_before(s, i) <= s[i].0,
        1 <= s[i].1,
        s[i].0 + s[i].1 <= len,
{
    reveal(sorted_apart);
    lemma_ids_before_grows(s, 0, i);
    assert(ids_before(s, i) + s[i].1 <= s[i].0 + s[i].1);
}

proof fn lemma_map_of_sorted_fits(s: Seq<(usize, usize)>, len: int)
    requires
        sorted_apart(s, len),
        s.len() > 0,
    ensures
        prune_fits(len, map_of_sorted(s)),
        map_ordered(map_of_sorted(s)),
        map_of_sorted(s).last().0 <= len,
{
    reveal(sorted_apart);
    let m = map_of_sorted(s);
    let last = m.len() - 1;
    lemma_map_of_sorted_entry(s, len, last);
    assert(1 <= s[last].1 && s[last].0 + s[last].1 <= len);
    assert forall|q: int| 0 <= q < m.len() implies {
        &&& #[trigger] m[q].1 <= m[q].0
        &&& segment_end(len, m, q) <= len
    } by {
        lemma_map_of_sorted_entry(s, len, q);
        if q + 1 < m.len() {
            assert(1 <= s[q + 1].1 && s[q + 1].0 + s[q + 1].1 <= len);
        }
    }
    assert forall|i: int| 0 <= i < m.len() - 1 implies {
        &&& #[trigger] m[i].0 <= m[i + 1].0
        &&& m[i].1 <= m[i + 1].1
        &&& new_id(m, i) <= new_id(m, i + 1)
    } by {
        lemma_map_of_sorted_entry(s, len, i);
        lemma_map_of_sorted_entry(s, len, i + 1);
        assert(s[i].0 + s[i].1 <= s[i + 1].0);
        assert(ids_before(s, i + 1) == ids_before(s, i) + s[i].1);
    }
}

#[verifier::spinoff_prover]
#[verifier::rlimit(50)]
proof fn lemma_sorted_apart_of(l: Seq<(usize, usize)>, len: int)
    requires
        l.len() > 0,
        ranges_disjoint(l),
        ranges_within(l, len),
    ensures
        sorted_apart(sort_by_start(l), len),
        sort_by_start(l).len() == l.len(),
        forall|i: int| 0 <= i < l.len() ==> ids_before(sort_by_start(l), i) <= #[trigger] sort_by_start(l)[i].0,
        ids_before(sort_by_start(l), l.len() as int) <= len,
{
    reveal(sorted_apart);
    assert(l[0].0 + l[0].1 <= len);
    lemma_sorted_ranges_apart(l, len);
    lemma_sort_by_start(l);
    let s = sort_by_start(l);
    assert forall|i: int| 0 <= i < l.len() implies ids_before(s, i) <= #[trigger] s[i].0 by {
        lemma_map_of_sorted_entry(s, len, i);
    }
}

/// Disjoint, non-empty sprite ranges within the frames always admit a prune map, and
/// pruning with it stays within the frames.
pub proof fn lemma_disjoint_ranges_prune(raw_len: int, ranges: Seq<Option<(usize, usize)>>)
    requires
        live_ranges(ranges).len() > 0,
        ranges_disjoint(live_ranges(ranges)),
        ranges_within(live_ranges(ranges), raw_len),
        raw_len <= usize::MAX,
    ensures
        prune_map_fits(ranges),
        prune_fits(raw_len, prune_map(ranges)),
        map_ordered(prune_map(ranges)),
        prune_map(ranges).last().0 <= raw_len,
{
    let l = live_ranges(ranges);
    lemma_sorted_apart_of(l, raw_len);
    lemma_map_of_sorted_fits(sort_by_start(l), raw_len);
}

proof fn lemma_prune_point<A>(raw: Seq<A>, mapping: Seq<(usize, usize)>, i: int, x: int)
    requires
        prune_fits(raw.len() as int, mapping),
        map_ordered(mapping),
        mapping.last().0 <= raw.len(),
        0 <= i < mapping.len(),
        new_id(mapping, i) <= x,
        i < mapping.len() - 1 ==> x < new_id(mapping, i + 1),
        i == mapping.len() - 1 ==> x < pruned_len(raw.len() as int, mapping),
    ensures
        shift_segments(raw, raw.len() as int, mapping, mapping.len() as int).take(
            pruned_len(raw.len() as int, mapping),
        )[x] == raw[x + mapping[i].1],
{
    lemma_prune_places_segments(raw, mapping);
    let r = shift_segments(raw, raw.len() as int, mapping, mapping.len() as int).take(
        pruned_len(raw.len() as int, mapping),
    );
    assert(mapping[i] == mapping[i]);
    assert(r[x] == raw[x + mapping[i].1]);
}

proof fn lemma_sorted_frames_moved<A>(raw: Seq<A>, s: Seq<(usize, usize)>)
    requires
        sorted_apart(s, raw.len() as int),
        s.len() > 0,
    ensures
        ({
            let m = map_of_sorted(s);
            let r = shift_segments(raw, raw.len() as int, m, m.len() as int).take(
                pruned_len(raw.len() as int, m),
            );
            forall|i: int, k: int|
                #![trigger s[i], r[ids_before(s, i) + k]]
                0 <= i < s.len() && 0 <= k < s[i].1 ==> r[ids_before(s, i) + k] == raw[s[i].0 + k]
        }),
{
    let n = raw.len() as int;
    let m = map_of_sorted(s);
    lemma_map_of_sorted_fits(s, n);
    let r = shift_segments(raw, n, m, m.len() as int).take(pruned_len(n, m));
    assert forall|i: int, k: int|
        #![trigger s[i], r[ids_before(s, i) + k]]
        0 <= i < s.len() && 0 <= k < s[i].1 implies r[ids_before(s, i) + k] == raw[s[i].0 + k] by {
        let x = ids_before(s, i) + k;
        lemma_map_of_sorted_entry(s, n, i);
        if i + 1 < s.len() {
            lemma_map_of_sorted_entry(s, n, i + 1);
            assert(ids_before(s, i + 1) == ids_before(s, i) + s[i].1);
        }
        lemma_prune_point(raw, m, i, x);
    }
}

/// Pruning with the prune map of disjoint, non-empty sprite ranges within the frames moves
/// the frames of every live sprite to its new first id, the number of frames of the live
/// sprites in front of it: frame `k` of the sprite is found at its new first id plus `k`.
pub proof fn lemma_prune_moves_sprite_frames<A>(raw: Seq<A>, ranges: Seq<Option<(usize, usize)>>)
    requires
        live_ranges(ranges).len() > 0,
        ranges_disjoint(live_ranges(ranges)),
        ranges_within(live_ranges(ranges), raw.len() as int),
        raw.len() <= usize::MAX,
    ensures
        ({
            let s = sort_by_start(live_ranges(ranges));
            let m = prune_map(ranges);
            let r = shift_segments(raw, raw.len() as int, m, m.len() as int).take(
                pruned_len(raw.len() as int, m),
            );
            forall|i: int, k: int|
                #![trigger s[i], r[ids_before(s, i) + k]]
                0 <= i < s.len() && 0 <= k < s[i].1 ==> r[ids_before(s, i) + k] == raw[s[i].0 + k]
        }),
{
    let l = live_ranges(ranges);
    lemma_sorted_apart_of(l, raw.len() as int);
    lemma_sorted_frames_moved(raw, sort_by_start(l));
}

proof fn lemma_live_contains(ranges: Seq<Option<(usize, usize)>>, j: int)
    requires
        0 <= j < ranges.len(),
        ranges[j] is Some,
    ensures
        live_ranges(ranges).contains(ranges[j]->0),
    decreases ranges.len(),
{
    let d = ranges.drop_last();
    if j == ranges.len() - 1 {
        let l = live_ranges(ranges);
        assert(l[l.len() - 1] == ranges[j]->0);
    } else {
        assert(d[j] == ranges[j]);
        lemma_live_contains(d, j);
        let ld = live_ranges(d);
        let p = choose|p: int| 0 <= p < ld.len() && ld[p] == ranges[j]->0;
        let l = live_ranges(ranges);
        assert(l[p] == ld[p]);
    }
}

proof fn lemma_sorted_starts_unique(s: Seq<(usize, usize)>, len: int)
    requires
        sorted_apart(s, len),
    ensures
        forall|a: int, b: int|
            0 <= a < b < s.len() ==> #[trigger] s[a].0 < #[trigger] s[b].0,
{
    reveal(sorted_apart);
    assert forall|a: int, b: int| 0 <= a < b < s.len() implies #[trigger] s[a].0 < #[trigger] s[b].0 by {
        assert(s[a].0 + s[a].1 <= s[a + 1].0);
        assert(1 <= s[a].1);
        assert(s[a + 1].0 <= s[b].0);
    }
}

proof fn lemma_destination_unique(mapping: Seq<(usize, usize)>, i: int, id: usize)
    requires
        0 <= i < mapping.len(),
        mapping[i].0 == id,
        forall|q: int| 0 <= q < mapping.len() && q != i ==> #[trigger] mapping[q].0 != id,
    ensures
        destination_map(mapping).contains_key(id),
        destination_map(mapping)[id] == (mapping[i].0 - mapping[i].1) as usize,
    decreases mapping.len(),
{
    if i < mapping.len() - 1 {
        let d = mapping.drop_last();
        assert(mapping[mapping.len() - 1].0 != id);
        assert forall|q: int| 0 <= q < d.len() && q != i implies #[trigger] d[q].0 != id by {
            assert(d[q] == mapping[q]);
        }
        lemma_destination_unique(d, i, id);
    }
}

/// Pruning keeps every live sprite: with disjoint, non-empty sprite ranges within the
/// frames, frame `k` of a live sprite is found after pruning at the texture id that pruning
/// assigns to the sprite, plus `k`.
pub proof fn lemma_pruned_sprite_found<A>(
    raw: Seq<A>,
    ranges: Seq<Option<(usize, usize)>>,
    j: int,
    k: int,
)
    requires
        ranges_disjoint(live_ranges(ranges)),
        ranges_within(live_ranges(ranges), raw.len() as int),
        raw.len() <= usize::MAX,
        0 <= j < ranges.len(),
        ranges[j] is Some,
        0 <= k < (ranges[j]->0).1,
    ensures
        ({
            let m = prune_map(ranges);
            let start = (ranges[j]->0).0;
            let r = shift_segments(raw, raw.len() as int, m, m.len() as int).take(
                pruned_len(raw.len() as int, m),
            );
            r[id_after_prune(m, start) + k] == raw[start + k]
        }),
{
    broadcast use vstd::seq_lib::to_multiset_contains;

    let l = live_ranges(ranges);
    let x = ranges[j]->0;
    lemma_live_contains(ranges, j);
    let s = sort_by_start(l);
    lemma_sort_by_start(l);
    lemma_sorted_apart_of(l, raw.len() as int);
    lemma_sorted_starts_unique(s, raw.len() as int);
    assert(l.to_multiset().count(x) > 0);
    assert(s.contains(x));
    let i = choose|i: int| 0 <= i < s.len() && s[i] == x;
    let m = prune_map(ranges);
    lemma_map_of_sorted_entry(s, raw.len() as int, i);
    assert(m[i] == (x.0, (x.0 - ids_before(s, i)) as usize));
    assert forall|q: int| 0 <= q < m.len() && q != i implies #[trigger] m[q].0 != x.0 by {
        assert(m[q].0 == s[q].0);
        if q < i {
            assert(s[q].0 < s[i].0);
        } else {
            assert(s[i].0 < s[q].0);
        }
    }
    lemma_destination_unique(m, i, x.0);
    assert(id_after_prune(m, x.0) == ids_before(s, i));
    lemma_prune_moves_sprite_frames(raw, ranges);
    assert(s[i] == x);
}

/// The bytes per texel of a format are the bits of a texel of the GPU format it is allocated
/// with, over eight: channels times channel width, so four 16-bit channels take 8 bytes and
/// four 32-bit channels 16.
pub proof fn lemma_bytes_per_pixel_fit_allocation(format: TextureFormat)
    ensures
        spec_bytes_per_pixel(format) * 8 == gpu_texel_bits(allocated_format(format)),
        gpu_channels(allocated_format(format)) == 4 && (allocated_format(format) is Rgba16Uint
            || allocated_format(format) is Rgba16Sint || allocated_format(format) is Rgba16Float)
            ==> spec_bytes_per_pixel(format) == 8,
{
}

} // verus!

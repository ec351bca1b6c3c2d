use vstd::prelude::*;
use vstd::string::StringSliceAdditionalSpecFns;
use vstd::arithmetic::power::pow;
use vstd::arithmetic::power2::{pow2, lemma_pow2, lemma_pow2_unfold, lemma_pow2_strictly_increases};

verus! {

/// Number of sprite texture buckets.
pub const NUM_BUCKETS: usize = 6;

/// Sprite parameter layout type. Sprites are arranged either horizontally or
/// vertically on the the sprite sheet.
#[allow(non_camel_case_types)]
#[derive(Debug, Copy, Clone, PartialEq, Eq, Structural)]
pub enum SpriteLayout {
    VERTICAL,
    HORIZONTAL,
}

/// Sprite parameters describe how individual sprites are positioned on a sprite sheet.
#[derive(Debug, Copy, Clone)]
pub struct SpriteParameters {
    /// Dimensions of a single frame.
    pub dimensions: (u32, u32),
    /// Number of frames per line and row.
    pub num_frames: (u32, u32),
    /// Number of sprite-components in the sheet.
    pub components: u32,
    /// Margin around each frame.
    pub inner_margin: u32,
    /// Layout of sprites within the sheet.
    pub layout: SpriteLayout,
}

/// Top/left coordinates of the given frame and component on the sprite sheet.
pub open spec fn frame_coordinates(p: SpriteParameters, frame_id: int, component: int) -> (int, int) {
    let step_x = p.dimensions.0 + p.inner_margin;
    let step_y = p.dimensions.1 + p.inner_margin;
    if p.layout == SpriteLayout::HORIZONTAL {
        let per_line = p.num_frames.0 as int;
        let column = frame_id % per_line;
        let row = frame_id / per_line;
        (column * step_x, (row + component) * step_y)
    } else {
        let per_row = p.num_frames.1 as int;
        let row = frame_id / per_row;
        let column = frame_id % per_row;
        ((row + component) * step_x, column * step_y)
    }
}

/// Whether the frame exists and its coordinates, with every intermediate value, fit in `u32`.
pub open spec fn frame_in_sheet(p: SpriteParameters, frame_id: int, component: int) -> bool {
    let step_x = p.dimensions.0 + p.inner_margin;
    let step_y = p.dimensions.1 + p.inner_margin;
    let per = if p.layout == SpriteLayout::HORIZONTAL {
        p.num_frames.0 as int
    } else {
        p.num_frames.1 as int
    };
    &&& p.num_frames.0 * p.num_frames.1 <= u32::MAX
    &&& frame_id < p.num_frames.0 * p.num_frames.1
    &&& component < p.components
    &&& step_x <= u32::MAX
    &&& step_y <= u32::MAX
    &&& frame_id / per + component <= u32::MAX
    &&& frame_coordinates(p, frame_id, component).0 <= u32::MAX
    &&& frame_coordinates(p, frame_id, component).1 <= u32::MAX
}

/// Computes top/left frame coordinates for the given frame_id/component in a sprite-sheet.
pub fn get_frame_coordinates(sprite_parameters: &SpriteParameters, frame_id: u32, component: u32) -> (r: (u32, u32))
    requires
        frame_in_sheet(*sprite_parameters, frame_id as int, component as int),
    ensures
        r.0 == frame_coordinates(*sprite_parameters, frame_id as int, component as int).0,
        r.1 == frame_coordinates(*sprite_parameters, frame_id as int, component as int).1,
{
    let frame_width = sprite_parameters.dimensions.0;
    let frame_height = sprite_parameters.dimensions.1;
    let inner_margin = sprite_parameters.inner_margin;
    let num_frames = sprite_parameters.num_frames;
    proof {
        assert(num_frames.0 > 0 && num_frames.1 > 0) by (nonlinear_arith)
            requires
                frame_id < num_frames.0 * num_frames.1,
                frame_id >= 0,
        ;
    }
    if sprite_parameters.layout == SpriteLayout::HORIZONTAL {
        let per_line = num_frames.0;
        let column = frame_id % per_line;
        let row = frame_id / per_line;
        (column * (frame_width + inner_margin), (row + component) * (frame_height + inner_margin))
    } else {
        let per_row = num_frames.1;
        let row = frame_id / per_row;
        let column = frame_id % per_row;
        ((row + component) * (frame_width + inner_margin), column * (frame_height + inner_margin))
    }
}

/// Whether every frame and component of the sheet lies within it with coordinates in `u32`,
/// and the number of raw frames fits in `u32`.
pub open spec fn sheet_fits(p: SpriteParameters) -> bool {
    &&& p.num_frames.0 * p.num_frames.1 <= u32::MAX
    &&& p.num_frames.0 * p.num_frames.1 * p.components <= u32::MAX
    &&& forall|f: int, c: int|
        0 <= f < p.num_frames.0 * p.num_frames.1 && 0 <= c < p.components ==> #[trigger] frame_in_sheet(p, f, c)
}

/// The sheet positions of a sprite's raw frames in the order they are stored: the
/// components of the first frame, then those of the second, and so on. Raw frame
/// `f * components + c` is component `c` of frame `f`.
pub fn raw_frame_origins(p: &SpriteParameters) -> (r: Vec<(u32, u32)>)
    requires
        sheet_fits(*p),
    ensures
        r@.len() == p.num_frames.0 * p.num_frames.1 * p.components,
        forall|f: int, c: int|
            0 <= f < p.num_frames.0 * p.num_frames.1 && 0 <= c < p.components ==> {
                let o = #[trigger] r@[f * p.components + c];
                o.0 == frame_coordinates(*p, f, c).0 && o.1 == frame_coordinates(*p, f, c).1
            },
{
    let components = p.components;
    let num_frames = p.num_frames.0 * p.num_frames.1;
    let mut r: Vec<(u32, u32)> = Vec::new();
    let mut frame_id: u32 = 0;
    while frame_id < num_frames
        invariant
            num_frames == p.num_frames.0 * p.num_frames.1,
            components == p.components,
            sheet_fits(*p),
            frame_id <= num_frames,
            r@.len() == frame_id * components,
            forall|f: int, c: int|
                0 <= f < frame_id && 0 <= c < components ==> {
                    let o = #[trigger] r@[f * components + c];
                    o.0 == frame_coordinates(*p, f, c).0 && o.1 == frame_coordinates(*p, f, c).1
                },
        decreases num_frames - frame_id,
    {
        let mut component: u32 = 0;
        while component < components
            invariant
                num_frames == p.num_frames.0 * p.num_frames.1,
                components == p.components,
                sheet_fits(*p),
                frame_id < num_frames,
                component <= components,
                r@.len() == frame_id * components + component,
                forall|f: int, c: int|
                    (0 <= f < frame_id && 0 <= c < components) || (f == frame_id && 0 <= c < component) ==> {
                        let o = #[trigger] r@[f * components + c];
                        o.0 == frame_coordinates(*p, f, c).0 && o.1 == frame_coordinates(*p, f, c).1
                    },
            decreases components - component,
        {
            assert(frame_in_sheet(*p, frame_id as int, component as int));
            let origin = get_frame_coordinates(p, frame_id, component);
            let ghost before = r@;
            r.push(origin);
            proof {
                assert forall|f: int, c: int|
                    (0 <= f < frame_id && 0 <= c < components) || (f == frame_id && 0 <= c < component + 1) implies {
                        let o = #[trigger] r@[f * components + c];
                        o.0 == frame_coordinates(*p, f, c).0 && o.1 == frame_coordinates(*p, f, c).1
                    } by {
                    if f < frame_id {
                        assert(f * components + c < frame_id * components) by (nonlinear_arith)
                            requires
                                0 <= f < frame_id,
                                0 <= c < components,
                        ;
                        assert(r@[f * components + c] == before[f * components + c]);
                    } else if c < component {
                        assert(r@[f * components + c] == before[f * components + c]);
                    }
                }
            }
            component = component + 1;
        }
        proof {
            assert((frame_id + 1) * components == frame_id * components + components) by (nonlinear_arith);
        }
        frame_id = frame_id + 1;
    }
    r
}

/// The texture id of frame `frame_id` of a sprite with `num_frames` frames of `components`
/// ids each, starting at `first`: frames repeat cyclically.
pub open spec fn texture_id_of(first: int, num_frames: int, components: int, frame_id: int) -> int {
    first + (frame_id % num_frames) * components
}

/// The texture id of a sprite's frame: frames repeat cyclically, and each frame takes
/// `components` ids from the sprite's first texture id (truncated to `u32`).
pub fn frame_texture_id(first_id: usize, num_frames: u16, components: u8, frame_id: u32) -> (r: u32)
    requires
        num_frames > 0,
        texture_id_of(first_id as u32 as int, num_frames as int, components as int, frame_id as int) <= u32::MAX,
    ensures
        r == texture_id_of(first_id as u32 as int, num_frames as int, components as int, frame_id as int),
        frame_id < num_frames ==> r == (first_id as u32) + frame_id * components,
{
    proof {
        lemma_texture_id_frames(first_id as u32 as int, num_frames as int, components as int, frame_id as int, 0);
    }
    let n = num_frames as u32;
    let c = components as u32;
    let f = frame_id % n;
    proof {
        assert(f * c <= u32::MAX);
    }
    (first_id as u32) + f * c
}

/// A sprite's frame texture ids repeat with the number of frames, and each is its first id
/// plus a multiple of the components below frames times components: with at least one
/// component, all lie among the sprite's ids, from its first id to before its first id plus
/// frames times components (with none, every frame's id is the first id).
pub proof fn lemma_texture_id_period(first: int, num_frames: int, components: int, frame_id: int)
    requires
        num_frames > 0,
        components >= 0,
        frame_id >= 0,
    ensures
        texture_id_of(first, num_frames, components, frame_id + num_frames) == texture_id_of(
            first,
            num_frames,
            components,
            frame_id,
        ),
        components > 0 ==> first <= texture_id_of(first, num_frames, components, frame_id) < first
            + num_frames * components,
        components == 0 ==> texture_id_of(first, num_frames, components, frame_id) == first,
{
    vstd::arithmetic::div_mod::lemma_mod_add_multiples_vanish(frame_id, num_frames);
    assert(frame_id + num_frames == num_frames + frame_id);
    vstd::arithmetic::div_mod::lemma_mod_pos_bound(frame_id, num_frames);
    let f = frame_id % num_frames;
    if components > 0 {
        assert(0 <= f * components < num_frames * components) by (nonlinear_arith)
            requires
                0 <= f < num_frames,
                components > 0,
        ;
    }
}

/// The bucket and padded texture size for frames whose larger side is `size`: sizes up to
/// 16 share bucket 1 with padded size 16; above that, the padded size is the smallest power
/// of two `2^k` that is at least `size`, and the bucket is `k - 3`.
pub open spec fn is_bucket_of(size: nat, bucket: nat, padded: nat) -> bool {
    &&& bucket >= 1
    &&& padded == pow2(bucket + 3)
    &&& size <= padded
    &&& bucket > 1 ==> pow2((bucket + 2) as nat) < size
}

/// Returns the appropriate bucket id and padded texture size for the given texture size.
/// Sizes up to 16 pixels share bucket 1, sizes up to 256 pixels fit into the buckets 1 to 5;
/// bucket 0 is the font cache.
pub fn bucket_info(width: u32, height: u32) -> (r: (u32, u32))
    requires
        width <= 256,
        height <= 256,
    ensures
        is_bucket_of(if width > height { width as nat } else { height as nat }, r.0 as nat, r.1 as nat),
        r.0 < NUM_BUCKETS,
{
    let max = if width > height { width } else { height };
    if max <= 16 {
        proof {
            lemma_pow2_values();
        }
        return (1, 16);
    }
    let mut ln2: u32 = 0;
    let mut size: u32 = 1;
    proof {
        lemma_pow2_values();
    }
    while size < max
        invariant
            size == pow2(ln2 as nat),
            ln2 <= 8,
            1 <= size <= 256,
            ln2 > 0 ==> pow2((ln2 - 1) as nat) < max,
            max <= 256,
            16 < max,
        decreases 256 - size,
    {
        proof {
            lemma_pow2_unfold((ln2 + 1) as nat);
            lemma_pow2_values();
            if ln2 >= 8 {
                lemma_pow2_monotone_8(ln2 as nat);
            }
            if ln2 + 1 < 8 {
                lemma_pow2_strictly_increases((ln2 + 1) as nat, 8);
            }
        }
        size = size * 2;
        ln2 = ln2 + 1;
    }
    proof {
        if ln2 < 4 {
            lemma_pow2_small(ln2 as nat);
        }
        lemma_pow2_unfold((ln2 - 2) as nat);
    }
    let bucket_id = ln2 - 4 + 1;
    (bucket_id, size)
}

proof fn lemma_pow2_values()
    ensures
        pow2(0) == 1,
        pow2(1) == 2,
        pow2(2) == 4,
        pow2(3) == 8,
        pow2(4) == 16,
        pow2(8) == 256,
{
    reveal(pow);
    lemma_pow2(0);
    lemma_pow2_unfold(1);
    lemma_pow2_unfold(2);
    lemma_pow2_unfold(3);
    lemma_pow2_unfold(4);
    lemma_pow2_unfold(5);
    lemma_pow2_unfold(6);
    lemma_pow2_unfold(7);
    lemma_pow2_unfold(8);
}

proof fn lemma_pow2_monotone_8(e: nat)
    requires
        e >= 8,
    ensures
        pow2(e) >= 256,
    decreases e,
{
    if e == 8 {
        lemma_pow2_values();
    } else {
        lemma_pow2_unfold(e);
        lemma_pow2_monotone_8((e - 1) as nat);
    }
}

proof fn lemma_pow2_small(e: nat)
    requires
        e < 4,
    ensures
        pow2(e) <= 8,
{
    lemma_pow2_values();
}

/// Whether a byte is an ASCII decimal digit.
pub open spec fn is_digit(c: u8) -> bool {
    48 <= c <= 57
}

/// End of the run of digits that starts at `i` (`i` itself if there is none).
pub open spec fn digits_end(b: Seq<u8>, i: int) -> int
    decreases b.len() - i,
{
    if 0 <= i < b.len() && is_digit(b[i]) {
        digits_end(b, i + 1)
    } else {
        i
    }
}

/// Decimal value of the digits `b[s .. e]`.
pub open spec fn digits_value(b: Seq<u8>, s: int, e: int) -> int
    decreases e - s,
{
    if e <= s {
        0
    } else {
        digits_value(b, s, e - 1) * 10 + (b[e - 1] - 48)
    }
}

/// Whether `b[i]` exists and equals `c`.
pub open spec fn byte_is(b: Seq<u8>, i: int, c: u8) -> bool {
    0 <= i < b.len() && b[i] == c
}

/// Whether a run of at least one digit starts at `i`.
pub open spec fn has_digits(b: Seq<u8>, i: int) -> bool {
    digits_end(b, i) > i
}

/// The parts of a sprite-sheet file name, as ranges `(start, end)` of its bytes:
/// `_<width>x<height>[x<frames>[x<components>]][+<margin>].`
pub struct NameMatch {
    pub width: (int, int),
    pub height: (int, int),
    pub frames: Option<(int, int)>,
    pub components: Option<(int, int)>,
    pub margin: Option<(int, int)>,
}

/// The optional margin and the closing dot starting at `p`: `+<digits>.` is tried before `.`.
pub open spec fn name_tail(b: Seq<u8>, p: int) -> Option<Option<(int, int)>> {
    if byte_is(b, p, 43) && has_digits(b, p + 1) && byte_is(b, digits_end(b, p + 1), 46) {
        Some(Some((p + 1, digits_end(b, p + 1))))
    } else if byte_is(b, p, 46) {
        Some(None)
    } else {
        None
    }
}

/// The match of the sprite-sheet name pattern that starts at `i`, if any. Optional
/// parts are taken when possible, in the order frames, components, margin.
pub open spec fn name_match_at(b: Seq<u8>, i: int) -> Option<NameMatch> {
    let e1 = digits_end(b, i + 1);
    let e2 = digits_end(b, e1 + 1);
    let e3 = digits_end(b, e2 + 1);
    let e4 = digits_end(b, e3 + 1);
    if !(byte_is(b, i, 95) && has_digits(b, i + 1) && byte_is(b, e1, 120) && has_digits(b, e1 + 1)) {
        None
    } else {
        let w = (i + 1, e1);
        let h = (e1 + 1, e2);
        let a = byte_is(b, e2, 120) && has_digits(b, e2 + 1);
        let c = a && byte_is(b, e3, 120) && has_digits(b, e3 + 1);
        if c && name_tail(b, e4) is Some {
            Some(
                NameMatch {
                    width: w,
                    height: h,
                    frames: Some((e2 + 1, e3)),
                    components: Some((e3 + 1, e4)),
                    margin: name_tail(b, e4)->0,
                },
            )
        } else if a && name_tail(b, e3) is Some {
            Some(
                NameMatch {
                    width: w,
                    height: h,
                    frames: Some((e2 + 1, e3)),
                    components: None,
                    margin: name_tail(b, e3)->0,
                },
            )
        } else if name_tail(b, e2) is Some {
            Some(
                NameMatch {
                    width: w,
                    height: h,
                    frames: None,
                    components: None,
                    margin: name_tail(b, e2)->0,
                },
            )
        } else {
            None
        }
    }
}

/// The leftmost match of the sprite-sheet name pattern at or after position `i`.
pub open spec fn name_match_from(b: Seq<u8>, i: int) -> Option<NameMatch>
    decreases b.len() - i,
{
    if i < 0 || i >= b.len() {
        None
    } else if name_match_at(b, i) is Some {
        name_match_at(b, i)
    } else {
        name_match_from(b, i + 1)
    }
}

/// The leftmost match of the sprite-sheet name pattern in the file name `b`.
pub open spec fn name_match(b: Seq<u8>) -> Option<NameMatch> {
    name_match_from(b, 0)
}

/// Whether an optional range of digits has a value that fits in `u32`.
pub open spec fn opt_fits(b: Seq<u8>, r: Option<(int, int)>) -> bool {
    r matches Some(r) ==> digits_value(b, r.0, r.1) <= u32::MAX
}

/// Whether every number in the leftmost match fits in `u32` (true when nothing matches).
pub open spec fn name_fits(b: Seq<u8>) -> bool {
    name_match(b) matches Some(m) ==> {
        &&& digits_value(b, m.width.0, m.width.1) <= u32::MAX
        &&& digits_value(b, m.height.0, m.height.1) <= u32::MAX
        &&& opt_fits(b, m.frames)
        &&& opt_fits(b, m.components)
        &&& opt_fits(b, m.margin)
    }
}

/// The value of an optional range of digits.
pub open spec fn opt_value(b: Seq<u8>, r: Option<(int, int)>) -> Option<u32> {
    match r {
        Some(r) => Some(digits_value(b, r.0, r.1) as u32),
        None => None,
    }
}

/// The numbers a sprite-sheet file name gives.
#[derive(Debug, Copy, Clone)]
pub struct SpriteName {
    pub frame_width: u32,
    pub frame_height: u32,
    pub frame_count: Option<u32>,
    pub components: Option<u32>,
    pub inner_margin: Option<u32>,
}

/// The numbers of the leftmost match of the sprite-sheet name pattern in `b`.
pub open spec fn sprite_name_of(b: Seq<u8>) -> Option<SpriteName> {
    match name_match(b) {
        Some(m) => Some(
            SpriteName {
                frame_width: digits_value(b, m.width.0, m.width.1) as u32,
                frame_height: digits_value(b, m.height.0, m.height.1) as u32,
                frame_count: opt_value(b, m.frames),
                components: opt_value(b, m.components),
                inner_margin: opt_value(b, m.margin),
            },
        ),
        None => None,
    }
}

proof fn lemma_digits_end(b: Seq<u8>, i: int)
    requires
        0 <= i,
    ensures
        i <= digits_end(b, i),
        digits_end(b, i) <= i || digits_end(b, i) <= b.len(),
        forall|j: int| i <= j < digits_end(b, i) ==> is_digit(#[trigger] b[j]),
        !(0 <= digits_end(b, i) < b.len() && is_digit(b[digits_end(b, i)])),
    decreases b.len() - i,
{
    if 0 <= i < b.len() && is_digit(b[i]) {
        lemma_digits_end(b, i + 1);
    }
}

proof fn lemma_digits_value_grows(b: Seq<u8>, s: int, k: int, e: int)
    requires
        s <= k <= e,
        forall|j: int| s <= j < e ==> is_digit(#[trigger] b[j]),
    ensures
        0 <= digits_value(b, s, k) <= digits_value(b, s, e),
    decreases e - s,
{
    if e > k {
        lemma_digits_value_grows(b, s, k, e - 1);
    } else if k > s {
        lemma_digits_value_grows(b, s, k - 1, k - 1);
    }
}

/// Returns the end of the run of digits that starts at `i`.
fn scan_digits(b: &[u8], i: usize) -> (r: usize)
    requires
        i <= b@.len(),
    ensures
        r == digits_end(b@, i as int),
        i <= r <= b@.len(),
{
    proof {
        lemma_digits_end(b@, i as int);
    }
    let mut j = i;
    while j < b.len() && 48 <= b[j] && b[j] <= 57
        invariant
            i <= j <= b@.len(),
            digits_end(b@, j as int) == digits_end(b@, i as int),
        decreases b@.len() - j,
    {
        j = j + 1;
    }
    j
}

/// Returns the value of the digits `b[s .. e]`, or `None` if it does not fit in `u32`.
fn parse_digits(b: &[u8], s: usize, e: usize) -> (r: Option<u32>)
    requires
        s <= e <= b@.len(),
        forall|j: int| s <= j < e ==> is_digit(#[trigger] b@[j]),
    ensures
        r matches Some(v) ==> v == digits_value(b@, s as int, e as int),
        r is None <==> digits_value(b@, s as int, e as int) > u32::MAX,
{
    let mut acc: u64 = 0;
    let mut k = s;
    while k < e
        invariant
            s <= k <= e <= b@.len(),
            forall|j: int| s <= j < e ==> is_digit(#[trigger] b@[j]),
            acc == digits_value(b@, s as int, k as int),
            acc <= u32::MAX,
        decreases e - k,
    {
        let d = b[k] - 48;
        acc = acc * 10 + d as u64;
        k = k + 1;
        if acc > 0xffff_ffffu64 {
            proof {
                lemma_digits_value_grows(b@, s as int, k as int, e as int);
            }
            return None;
        }
    }
    Some(acc as u32)
}

/// The optional margin and closing dot starting at `p` (see [`name_tail`]).
fn scan_tail(b: &[u8], p: usize) -> (r: Option<Option<(usize, usize)>>)
    requires
        p <= b@.len(),
    ensures
        match name_tail(b@, p as int) {
            Some(Some(m)) => r == Some(Some((m.0 as usize, m.1 as usize))),
            Some(None) => r == Some(None::<(usize, usize)>),
            None => r is None,
        },
{
    if p < b.len() && b[p] == 43 {
        let e = scan_digits(b, p + 1);
        if e > p + 1 && e < b.len() && b[e] == 46 {
            return Some(Some((p + 1, e)));
        }
    }
    if p < b.len() && b[p] == 46 {
        Some(None)
    } else {
        None
    }
}

/// Ranges of the parts of a matched sprite-sheet name.
struct NameRanges {
    width: (usize, usize),
    height: (usize, usize),
    frames: Option<(usize, usize)>,
    components: Option<(usize, usize)>,
    margin: Option<(usize, usize)>,
}

spec fn opt_range_is(r: Option<(usize, usize)>, s: Option<(int, int)>) -> bool {
    match s {
        Some(s) => r == Some((s.0 as usize, s.1 as usize)),
        None => r is None,
    }
}

spec fn ranges_are(r: NameRanges, m: NameMatch) -> bool {
    &&& r.width == (m.width.0 as usize, m.width.1 as usize)
    &&& r.height == (m.height.0 as usize, m.height.1 as usize)
    &&& opt_range_is(r.frames, m.frames)
    &&& opt_range_is(r.components, m.components)
    &&& opt_range_is(r.margin, m.margin)
}

/// The match of the sprite-sheet name pattern at `i` (see [`name_match_at`]).
fn scan_name_at(b: &[u8], i: usize) -> (r: Option<NameRanges>)
    requires
        i < b@.len(),
    ensures
        match name_match_at(b@, i as int) {
            Some(m) => r matches Some(r) && ranges_are(r, m),
            None => r is None,
        },
{
    if b[i] != 95 {
        return None;
    }
    let e1 = scan_digits(b, i + 1);
    if e1 == i + 1 || e1 >= b.len() || b[e1] != 120 {
        return None;
    }
    let e2 = scan_digits(b, e1 + 1);
    if e2 == e1 + 1 {
        return None;
    }
    let width = (i + 1, e1);
    let height = (e1 + 1, e2);
    let a = e2 < b.len() && b[e2] == 120 && scan_digits(b, e2 + 1) > e2 + 1;
    if a {
        let e3 = scan_digits(b, e2 + 1);
        let c = e3 < b.len() && b[e3] == 120 && scan_digits(b, e3 + 1) > e3 + 1;
        if c {
            let e4 = scan_digits(b, e3 + 1);
            let tail = scan_tail(b, e4);
            if let Some(margin) = tail {
                return Some(
                    NameRanges {
                        width,
                        height,
                        frames: Some((e2 + 1, e3)),
                        components: Some((e3 + 1, e4)),
                        margin,
                    },
                );
            }
        }
        let tail = scan_tail(b, e3);
        if let Some(margin) = tail {
            return Some(
                NameRanges { width, height, frames: Some((e2 + 1, e3)), components: None, margin },
            );
        }
    }
    let tail = scan_tail(b, e2);
    match tail {
        Some(margin) => Some(NameRanges { width, height, frames: None, components: None, margin }),
        None => None,
    }
}

/// The leftmost match of the sprite-sheet name pattern (see [`name_match`]).
fn scan_name(b: &[u8]) -> (r: Option<NameRanges>)
    ensures
        match name_match(b@) {
            Some(m) => r matches Some(r) && ranges_are(r, m),
            None => r is None,
        },
{
    let mut i: usize = 0;
    while i < b.len()
        invariant
            i <= b@.len(),
            name_match_from(b@, i as int) == name_match(b@),
        decreases b@.len() - i,
    {
        let found = scan_name_at(b, i);
        if found.is_some() {
            return found;
        }
        i = i + 1;
    }
    None
}

proof fn lemma_ranges_are_digits(b: Seq<u8>, r: (int, int))
    requires
        0 <= r.0,
        r.1 == digits_end(b, r.0),
    ensures
        r.0 <= r.1,
        r.1 <= r.0 || r.1 <= b.len(),
        forall|j: int| r.0 <= j < r.1 ==> is_digit(#[trigger] b[j]),
{
    lemma_digits_end(b, r.0);
}

/// Parses an optional range of digits; `None` stays `None`.
fn parse_opt(b: &[u8], r: Option<(usize, usize)>) -> (v: Option<u32>)
    requires
        r matches Some(r) ==> r.0 <= r.1 <= b@.len() && (forall|j: int|
            r.0 <= j < r.1 ==> is_digit(#[trigger] b@[j])) && digits_value(
            b@,
            r.0 as int,
            r.1 as int,
        ) <= u32::MAX,
    ensures
        match r {
            Some(r) => v == Some(digits_value(b@, r.0 as int, r.1 as int) as u32),
            None => v is None,
        },
{
    match r {
        Some(r) => parse_digits(b, r.0, r.1),
        None => None,
    }
}

proof fn lemma_match_ranges(b: Seq<u8>, m: NameMatch)
    requires
        exists|i: int| 0 <= i < b.len() && name_match_at(b, i) == Some(m),
    ensures
        0 <= m.width.0 <= m.width.1 <= b.len(),
        0 <= m.height.0 <= m.height.1 <= b.len(),
        forall|j: int| m.width.0 <= j < m.width.1 ==> is_digit(#[trigger] b[j]),
        forall|j: int| m.height.0 <= j < m.height.1 ==> is_digit(#[trigger] b[j]),
        m.frames matches Some(f) ==> 0 <= f.0 <= f.1 <= b.len() && forall|j: int|
            f.0 <= j < f.1 ==> is_digit(#[trigger] b[j]),
        m.components matches Some(f) ==> 0 <= f.0 <= f.1 <= b.len() && forall|j: int|
            f.0 <= j < f.1 ==> is_digit(#[trigger] b[j]),
        m.margin matches Some(f) ==> 0 <= f.0 <= f.1 <= b.len() && forall|j: int|
            f.0 <= j < f.1 ==> is_digit(#[trigger] b[j]),
{
    let i = choose|i: int| 0 <= i < b.len() && name_match_at(b, i) == Some(m);
    let e1 = digits_end(b, i + 1);
    let e2 = digits_end(b, e1 + 1);
    let e3 = digits_end(b, e2 + 1);
    let e4 = digits_end(b, e3 + 1);
    lemma_digits_end(b, i + 1);
    lemma_digits_end(b, e1 + 1);
    lemma_digits_end(b, e2 + 1);
    lemma_digits_end(b, e3 + 1);
    lemma_digits_end(b, e4 + 1);
    lemma_digits_end(b, e3 + 2);
    lemma_digits_end(b, e2 + 2);
    lemma_digits_end(b, e4 + 1);
}

proof fn lemma_match_from_found(b: Seq<u8>, i: int)
    requires
        0 <= i,
        name_match_from(b, i) is Some,
    ensures
        exists|k: int| 0 <= k < b.len() && name_match_at(b, k) == name_match_from(b, i),
    decreases b.len() - i,
{
    if name_match_at(b, i) is Some {
        assert(name_match_at(b, i) == name_match_from(b, i));
    } else {
        lemma_match_from_found(b, i + 1);
    }
}

/// Whether every number in the leftmost sprite-sheet name match of `filename` fits in `u32`.
/// A name for which this is false cannot be parsed: loading such a sprite sheet fails.
pub fn sprite_name_fits(filename: &str) -> (r: bool)
    ensures
        r == name_fits(filename.spec_bytes()),
{
    let b = filename.as_bytes();
    assert(b@.len() == b.len());
    let found = scan_name(b);
    match found {
        None => true,
        Some(m) => {
            proof {
                lemma_match_from_found(b@, 0);
                lemma_match_ranges(b@, name_match(b@)->0);
                let sm = name_match(b@)->0;
                assert(m.width.0 as int == sm.width.0 && m.width.1 as int == sm.width.1);
                assert(m.height.0 as int == sm.height.0 && m.height.1 as int == sm.height.1);
            }
            parse_digits(b, m.width.0, m.width.1).is_some() && parse_digits(
                b,
                m.height.0,
                m.height.1,
            ).is_some() && match m.frames {
                Some(f) => parse_digits(b, f.0, f.1).is_some(),
                None => true,
            } && match m.components {
                Some(f) => parse_digits(b, f.0, f.1).is_some(),
                None => true,
            } && match m.margin {
                Some(f) => parse_digits(b, f.0, f.1).is_some(),
                None => true,
            }
        },
    }
}

/// Parses a sprite-sheet file name for frame dimensions, frame count, component count
/// and inner margin: `mysprite_16x16x30.png` (16x16, 30 frames), `mysprite_16x16x30x2.png`
/// (2 components), `mysprite_16x16x30+1.png` (inner margin of 1 px), `mysprite_16x16+1.png`
/// (no frame count). Uses the leftmost match of `_<w>x<h>[x<frames>[x<components>]][+<margin>].`;
/// digits are ASCII digits.
pub fn parse_sprite_name(filename: &str) -> (r: Option<SpriteName>)
    requires
        name_fits(filename.spec_bytes()),
    ensures
        match (r, sprite_name_of(filename.spec_bytes())) {
            (Some(a), Some(e)) => {
                &&& a.frame_width == e.frame_width
                &&& a.frame_height == e.frame_height
                &&& a.frame_count == e.frame_count
                &&& a.components == e.components
                &&& a.inner_margin == e.inner_margin
            },
            (None, None) => true,
            _ => false,
        },
{
    let b = filename.as_bytes();
    assert(b@.len() == b.len());
    let found = scan_name(b);
    match found {
        None => None,
        Some(m) => {
            proof {
                lemma_match_from_found(b@, 0);
                lemma_match_ranges(b@, name_match(b@)->0);
                let sm = name_match(b@)->0;
                assert(m.width.0 as int == sm.width.0 && m.width.1 as int == sm.width.1);
                assert(m.height.0 as int == sm.height.0 && m.height.1 as int == sm.height.1);
            }
            let w = parse_digits(b, m.width.0, m.width.1);
            let h = parse_digits(b, m.height.0, m.height.1);
            let frame_count = parse_opt(b, m.frames);
            let components = parse_opt(b, m.components);
            let inner_margin = parse_opt(b, m.margin);
            match (w, h) {
                (Some(frame_width), Some(frame_height)) => Some(
                    SpriteName { frame_width, frame_height, frame_count, components, inner_margin },
                ),
                _ => None,
            }
        },
    }
}

/// The number of frames along one side of a sheet: a sheet side of `side` pixels holds
/// `(side + margin) / (frame + margin)` frames when that divides evenly (a frame and its
/// margin repeat, the last frame without a trailing margin).
pub open spec fn frames_along(side: int, frame: int, margin: int) -> Option<int> {
    let step = frame + margin;
    if step > 0 && (side + margin) % step == 0 && (side + margin) / step <= u32::MAX {
        Some((side + margin) / step)
    } else {
        None
    }
}

fn count_along(side: u32, frame: u32, margin: u32) -> (r: Option<u32>)
    ensures
        match frames_along(side as int, frame as int, margin as int) {
            Some(n) => r == Some(n as u32),
            None => r is None,
        },
{
    let step: u64 = frame as u64 + margin as u64;
    let total: u64 = side as u64 + margin as u64;
    if step > 0 && total % step == 0 && total / step <= u32::MAX as u64 {
        Some((total / step) as u32)
    } else {
        None
    }
}

/// The number of frames per line and row of a sheet of `dimensions` with frames of size
/// `frame` and the given inner margin, or `None` where a side does not divide evenly into
/// frames.
pub fn frame_grid(dimensions: (u32, u32), frame: (u32, u32), inner_margin: u32) -> (r: Option<(u32, u32)>)
    ensures
        match (
            frames_along(dimensions.0 as int, frame.0 as int, inner_margin as int),
            frames_along(dimensions.1 as int, frame.1 as int, inner_margin as int),
        ) {
            (Some(x), Some(y)) => r == Some((x as u32, y as u32)),
            _ => r is None,
        },
{
    match (count_along(dimensions.0, frame.0, inner_margin), count_along(dimensions.1, frame.1, inner_margin)) {
        (Some(x), Some(y)) => Some((x, y)),
        _ => None,
    }
}

/// The sprite parameters a sheet of the given dimensions and file name describes.
/// `frame_grid` (frames per line and row) is used only when the name gives no frame
/// count; without a match the whole sheet is a single frame.
pub open spec fn spec_sprite_parameters(
    dimensions: (u32, u32),
    name: Option<SpriteName>,
    frame_grid: (u32, u32),
) -> SpriteParameters {
    match name {
        Some(n) => {
            let count: u32 = match n.frame_count {
                Some(c) => c,
                None => 0,
            };
            let layout = if n.frame_height == dimensions.1 || count == 0 {
                SpriteLayout::HORIZONTAL
            } else {
                SpriteLayout::VERTICAL
            };
            SpriteParameters {
                dimensions: (n.frame_width, n.frame_height),
                inner_margin: match n.inner_margin {
                    Some(m) => m,
                    None => 0,
                },
                num_frames: if count == 0 {
                    frame_grid
                } else if layout == SpriteLayout::HORIZONTAL {
                    (count, 1u32)
                } else {
                    (1u32, count)
                },
                components: match n.components {
                    Some(c) => c,
                    None => 1,
                },
                layout,
            }
        },
        None => SpriteParameters {
            dimensions,
            inner_margin: 0,
            num_frames: (1, 1),
            components: 1,
            layout: SpriteLayout::HORIZONTAL,
        },
    }
}

/// Builds the sprite parameters for a sheet of the given dimensions from its parsed file name.
/// `frame_grid` is the number of frames per line and row that fit into the sheet; it is
/// only used when the name gives no frame count.
pub fn sprite_parameters(dimensions: (u32, u32), name: Option<SpriteName>, frame_grid: (u32, u32)) -> (r: SpriteParameters)
    ensures
        r == spec_sprite_parameters(dimensions, name, frame_grid),
        match name {
            None => {
                &&& r.dimensions == dimensions
                &&& r.num_frames == (1u32, 1u32)
                &&& r.components == 1
                &&& r.inner_margin == 0
                &&& r.layout == SpriteLayout::HORIZONTAL
            },
            Some(n) => {
                &&& r.dimensions == (n.frame_width, n.frame_height)
                &&& n.inner_margin is None ==> r.inner_margin == 0
                &&& n.inner_margin matches Some(m) ==> r.inner_margin == m
                &&& n.components is None ==> r.components == 1
                &&& n.components matches Some(c) ==> r.components == c
                &&& (n.frame_count is None || n.frame_count == Some(0u32)) ==> r.layout
                    == SpriteLayout::HORIZONTAL && r.num_frames == frame_grid
                &&& n.frame_count matches Some(c) ==> (c > 0 && n.frame_height == dimensions.1
                    ==> r.layout == SpriteLayout::HORIZONTAL && r.num_frames == (c, 1u32))
                &&& n.frame_count matches Some(c) ==> (c > 0 && n.frame_height != dimensions.1
                    ==> r.layout == SpriteLayout::VERTICAL && r.num_frames == (1u32, c))
            },
        },
{
    match name {
        Some(n) => {
            let count: u32 = match n.frame_count {
                Some(c) => c,
                None => 0,
            };
            let layout = if n.frame_height == dimensions.1 || count == 0 {
                SpriteLayout::HORIZONTAL
            } else {
                SpriteLayout::VERTICAL
            };
            let num_frames = if count == 0 {
                frame_grid
            } else if layout == SpriteLayout::HORIZONTAL {
                (count, 1)
            } else {
                (1, count)
            };
            SpriteParameters {
                dimensions: (n.frame_width, n.frame_height),
                inner_margin: match n.inner_margin {
                    Some(m) => m,
                    None => 0,
                },
                num_frames,
                components: match n.components {
                    Some(c) => c,
                    None => 1,
                },
                layout,
            }
        },
        None => SpriteParameters {
            dimensions,
            inner_margin: 0,
            num_frames: (1, 1),
            components: 1,
            layout: SpriteLayout::HORIZONTAL,
        },
    }
}

/// What a sheet's name says of its parameters: without a match the whole sheet is one frame;
/// with one, the frames have the named size, margin (default 0) and components (default 1).
/// Without a frame count (or with 0) the frames are counted from the sheet and ordered
/// horizontally; with a count, a sheet one frame high orders them horizontally in one row,
/// any other sheet vertically in one column.
pub proof fn lemma_sheet_name_parameters(dimensions: (u32, u32), name: Option<SpriteName>, frame_grid: (u32, u32))
    ensures
        ({
            let p = spec_sprite_parameters(dimensions, name, frame_grid);
            match name {
                None => {
                    &&& p.dimensions == dimensions
                    &&& p.num_frames == (1u32, 1u32)
                    &&& p.components == 1
                    &&& p.inner_margin == 0
                    &&& p.layout == SpriteLayout::HORIZONTAL
                },
                Some(n) => {
                    &&& p.dimensions == (n.frame_width, n.frame_height)
                    &&& n.inner_margin is None ==> p.inner_margin == 0
                    &&& n.inner_margin matches Some(m) ==> p.inner_margin == m
                    &&& n.components is None ==> p.components == 1
                    &&& n.components matches Some(c) ==> p.components == c
                    &&& (n.frame_count is None || n.frame_count == Some(0u32)) ==> p.layout
                        == SpriteLayout::HORIZONTAL && p.num_frames == frame_grid
                    &&& n.frame_count matches Some(c) ==> (c > 0 && n.frame_height == dimensions.1
                        ==> p.layout == SpriteLayout::HORIZONTAL && p.num_frames == (c, 1u32))
                    &&& n.frame_count matches Some(c) ==> (c > 0 && n.frame_height != dimensions.1
                        ==> p.layout == SpriteLayout::VERTICAL && p.num_frames == (1u32, c))
                },
            }
        }),
{
}

/// Where a frame is found when the frames are ordered horizontally: frame `f` lies in
/// column `f % per_line` and line `f / per_line`, and component `c` is `c` lines further
/// down; so with frames counted from the sheet, frame 1 of a sheet two frames wide is to the
/// right of frame 0.
pub proof fn lemma_horizontal_frames(p: SpriteParameters, f: int, c: int)
    requires
        p.layout == SpriteLayout::HORIZONTAL,
        p.num_frames.0 > 0,
    ensures
        frame_coordinates(p, f, c) == (
            (f % p.num_frames.0 as int) * (p.dimensions.0 + p.inner_margin),
            (f / p.num_frames.0 as int + c) * (p.dimensions.1 + p.inner_margin),
        ),
{
}

/// Within one cycle each frame takes its own ids: frame `f` (below the number of frames)
/// starts at the first id plus `f` times the components, so two different frames of a sprite
/// with components get different ids.
pub proof fn lemma_texture_id_frames(first: int, num_frames: int, components: int, f: int, g: int)
    requires
        num_frames > 0,
    ensures
        0 <= f < num_frames ==> texture_id_of(first, num_frames, components, f) == first + f * components,
        0 <= f < num_frames && 0 <= g < num_frames && f != g && components > 0 ==> texture_id_of(
            first,
            num_frames,
            components,
            f,
        ) != texture_id_of(first, num_frames, components, g),
{
    if 0 <= f < num_frames {
        vstd::arithmetic::div_mod::lemma_small_mod(f as nat, num_frames as nat);
    }
    if 0 <= g < num_frames {
        vstd::arithmetic::div_mod::lemma_small_mod(g as nat, num_frames as nat);
    }
    if 0 <= f < num_frames && 0 <= g < num_frames && f != g && components > 0 {
        assert(f * components != g * components) by (nonlinear_arith)
            requires
                f != g,
                components > 0,
        ;
    }
}

} // verus!

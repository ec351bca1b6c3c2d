use vstd::prelude::*;

verus! {

/// Maximum number of vertex buffers a backend context keeps.
pub const MAX_BUFFERS: usize = 10;

/// Whether `data[6 * i .. 6 * i + 6]` holds the two triangles of quad `i`:
/// vertices `4i, 4i+1, 4i+2` and `4i+1, 4i+3, 4i+2`.
pub open spec fn quad_indices(data: Seq<u32>, i: int) -> bool {
    &&& data[6 * i] == 4 * i
    &&& data[6 * i + 1] == 4 * i + 1
    &&& data[6 * i + 2] == 4 * i + 2
    &&& data[6 * i + 3] == 4 * i + 1
    &&& data[6 * i + 4] == 4 * i + 3
    &&& data[6 * i + 5] == 4 * i + 2
}

/// Creates the index data for rectangles consisting of two triangles each, for
/// `max_sprites` rectangles of four vertices.
pub fn index_buffer_data(max_sprites: usize) -> (r: Vec<u32>)
    requires
        max_sprites * 4 <= u32::MAX + 1,
        max_sprites * 6 <= usize::MAX,
    ensures
        r@.len() == 6 * max_sprites,
        forall|i: int| 0 <= i < max_sprites ==> #[trigger] quad_indices(r@, i),
{
    let mut data: Vec<u32> = Vec::with_capacity(max_sprites * 6);
    let mut i: usize = 0;
    while i < max_sprites
        invariant
            i <= max_sprites,
            max_sprites * 4 <= u32::MAX + 1,
            data@.len() == 6 * i,
            forall|k: int| 0 <= k < i ==> #[trigger] quad_indices(data@, k),
        decreases max_sprites - i,
    {
        let num = i as u32;
        let ghost before = data@;
        data.push(num * 4);
        data.push(num * 4 + 1);
        data.push(num * 4 + 2);
        data.push(num * 4 + 1);
        data.push(num * 4 + 3);
        data.push(num * 4 + 2);
        assert forall|k: int| 0 <= k < i + 1 implies #[trigger] quad_indices(data@, k) by {
            if k < i {
                assert(quad_indices(before, k));
                assert(6 * k + 5 < 6 * i);
            }
        }
        i = i + 1;
    }
    data
}

/// Whether an index buffer of `index_len` indices is too small for `max_sprites` rectangles.
pub fn needs_index_buffer_update(max_sprites: usize, index_len: usize) -> (r: bool)
    requires
        max_sprites * 6 <= usize::MAX,
    ensures
        r == (max_sprites * 6 > index_len),
{
    max_sprites * 6 > index_len
}

/// Converts a copy/blit source and target rectangle `((x, y), (width, height))`, with
/// the top/left origin used by the library, to the bottom/left origin of the backend:
/// `(left, bottom, width, height)` for the source and the target.
pub fn blit_coords(
    source_rect: ((i32, i32), (i32, i32)),
    source_height: u32,
    target_rect: ((i32, i32), (i32, i32)),
    target_height: u32,
) -> (r: ((u32, u32, u32, u32), (u32, u32, i32, i32)))
    requires
        i32::MIN <= (source_height as i32) - (source_rect.1).1 <= i32::MAX,
        i32::MIN <= (source_height as i32) - (source_rect.1).1 - (source_rect.0).1 <= i32::MAX,
        i32::MIN <= (target_height as i32) - (target_rect.1).1 <= i32::MAX,
        i32::MIN <= (target_height as i32) - (target_rect.1).1 - (target_rect.0).1 <= i32::MAX,
    ensures
        r.0 == (
            (source_rect.0).0 as u32,
            ((source_height as i32) - (source_rect.1).1 - (source_rect.0).1) as u32,
            (source_rect.1).0 as u32,
            (source_rect.1).1 as u32,
        ),
        r.1 == (
            (target_rect.0).0 as u32,
            ((target_height as i32) - (target_rect.1).1 - (target_rect.0).1) as u32,
            (target_rect.1).0,
            (target_rect.1).1,
        ),
{
    let source_bottom: i32 = source_height as i32 - (source_rect.1).1 - (source_rect.0).1;
    let target_bottom: i32 = target_height as i32 - (target_rect.1).1 - (target_rect.0).1;
    (
        (
            (source_rect.0).0 as u32,
            source_bottom as u32,
            (source_rect.1).0 as u32,
            (source_rect.1).1 as u32,
        ),
        ((target_rect.0).0 as u32, target_bottom as u32, (target_rect.1).0, (target_rect.1).1),
    )
}

/// Bookkeeping for one cached vertex buffer.
#[derive(Copy, Clone, Debug, PartialEq, Eq, Structural)]
pub struct VertexBufferSlot {
    /// Hint the buffer was created for.
    pub hint: usize,
    /// Number of selections since the buffer was last selected.
    pub age: usize,
    /// Number of vertices the buffer holds.
    pub capacity: usize,
}

/// Whether a slot can serve a request for `num_vertices` vertices with the given hint.
pub open spec fn fits(slot: VertexBufferSlot, hint: usize, num_vertices: usize) -> bool {
    slot.hint == hint && slot.capacity >= num_vertices
}

/// The first slot that fits the request, or `slots.len()` if none does.
pub open spec fn first_fit(slots: Seq<VertexBufferSlot>, hint: usize, num_vertices: usize) -> int
    decreases slots.len(),
{
    if slots.len() == 0 {
        0
    } else if fits(slots[0], hint, num_vertices) {
        0
    } else {
        1 + first_fit(slots.drop_first(), hint, num_vertices)
    }
}

/// Whether `i` is the last of the slots with the largest age.
pub open spec fn is_oldest(slots: Seq<VertexBufferSlot>, i: int) -> bool {
    &&& 0 <= i < slots.len()
    &&& forall|j: int| 0 <= j < slots.len() ==> slots[j].age <= slots[i].age
    &&& forall|j: int| i < j < slots.len() ==> slots[j].age < slots[i].age
}

/// The slots with every age advanced by one.
pub open spec fn aged(slots: Seq<VertexBufferSlot>) -> Seq<VertexBufferSlot> {
    slots.map_values(
        |s: VertexBufferSlot| VertexBufferSlot { hint: s.hint, age: (s.age + 1) as usize, capacity: s.capacity },
    )
}

/// A cache of vertex buffers, selected by hint and size and replaced oldest first.
pub struct VertexBufferCache {
    slots: Vec<VertexBufferSlot>,
}

impl VertexBufferCache {
    /// The cached slots.
    pub closed spec fn view(&self) -> Seq<VertexBufferSlot> {
        self.slots@
    }

    /// The cache holds at most `MAX_BUFFERS` slots.
    pub open spec fn wf(&self) -> bool {
        self@.len() <= MAX_BUFFERS
    }

    /// Creates an empty cache.
    pub fn new() -> (r: VertexBufferCache)
        ensures
            r@ == Seq::<VertexBufferSlot>::empty(),
            r.wf(),
    {
        VertexBufferCache { slots: Vec::new() }
    }

    /// Returns the cached slots.
    pub fn slots(&self) -> (r: &Vec<VertexBufferSlot>)
        ensures
            r@ == self@,
    {
        &self.slots
    }

    /// Selects a vertex buffer for `num_vertices` vertices with the given hint. Every
    /// slot ages by one; the first slot that fits is reused and its age reset. Otherwise
    /// a new slot is added while there is room, or else the oldest slot (the last one
    /// among equally old) is replaced. Returns the slot's index and whether the caller
    /// has to create a new buffer for it.
    pub fn select_vertex_buffer(&mut self, buffer_hint: usize, num_vertices: usize) -> (r: (usize, bool))
        requires
            old(self).wf(),
            forall|i: int| 0 <= i < old(self)@.len() ==> old(self)@[i].age < usize::MAX,
        ensures
            final(self).wf(),
            ({
                let a = aged(old(self)@);
                let p = first_fit(old(self)@, buffer_hint, num_vertices);
                let fresh = VertexBufferSlot { hint: buffer_hint, age: 0, capacity: num_vertices };
                if p < old(self)@.len() {
                    &&& r == (p as usize, false)
                    &&& final(self)@ == a.update(p, VertexBufferSlot { age: 0, ..a[p] })
                } else if old(self)@.len() < MAX_BUFFERS {
                    &&& r == (old(self)@.len() as usize, true)
                    &&& final(self)@ == a.push(fresh)
                } else {
                    &&& r.1
                    &&& is_oldest(a, r.0 as int)
                    &&& final(self)@ == a.update(r.0 as int, fresh)
                }
            }),
    {
        let ghost start = self.slots@;
        let n = self.slots.len();
        let mut i: usize = 0;
        while i < n
            invariant
                n == start.len(),
                n <= MAX_BUFFERS,
                start == old(self).slots@,
                i <= n,
                self.slots@.len() == n,
                forall|k: int| 0 <= k < n ==> start[k].age < usize::MAX,
                forall|k: int| 0 <= k < i ==> self.slots@[k] == aged(start)[k],
                forall|k: int| i <= k < n ==> self.slots@[k] == start[k],
            decreases n - i,
        {
            let s = self.slots[i];
            assert(s == start[i as int]);
            self.slots.set(i, VertexBufferSlot { hint: s.hint, age: s.age + 1, capacity: s.capacity });
            i = i + 1;
        }
        assert(self.slots@ =~= aged(start));
        let ghost a = self.slots@;
        let mut j: usize = 0;
        while j < n
            invariant
                n == start.len(),
                n <= MAX_BUFFERS,
                start == old(self).slots@,
                j <= n,
                self.slots@ == a,
                a == aged(start),
                forall|k: int| 0 <= k < j ==> !fits(start[k], buffer_hint, num_vertices),
            decreases n - j,
        {
            let s = self.slots[j];
            if s.hint == buffer_hint && s.capacity >= num_vertices {
                proof {
                    lemma_first_fit(start, buffer_hint, num_vertices, j as int);
                }
                self.slots.set(j, VertexBufferSlot { hint: s.hint, age: 0, capacity: s.capacity });
                return (j, false);
            }
            j = j + 1;
        }
        proof {
            lemma_first_fit_none(start, buffer_hint, num_vertices);
        }
        let fresh = VertexBufferSlot { hint: buffer_hint, age: 0, capacity: num_vertices };
        if n < MAX_BUFFERS {
            self.slots.push(fresh);
            (n, true)
        } else {
            let mut oldest: usize = 0;
            let mut k: usize = 1;
            while k < n
                invariant
                    n == a.len(),
                    n == MAX_BUFFERS,
                    a == aged(old(self).slots@),
                    1 <= k <= n,
                    oldest < k,
                    self.slots@ == a,
                    forall|m: int| 0 <= m < k ==> a[m].age <= a[oldest as int].age,
                    forall|m: int| oldest < m < k ==> a[m].age < a[oldest as int].age,
                decreases n - k,
            {
                if self.slots[k].age >= self.slots[oldest].age {
                    oldest = k;
                }
                k = k + 1;
            }
            self.slots.set(oldest, fresh);
            (oldest, true)
        }
    }
}

proof fn lemma_first_fit(slots: Seq<VertexBufferSlot>, hint: usize, num_vertices: usize, j: int)
    requires
        0 <= j < slots.len(),
        fits(slots[j], hint, num_vertices),
        forall|k: int| 0 <= k < j ==> !fits(slots[k], hint, num_vertices),
    ensures
        first_fit(slots, hint, num_vertices) == j,
    decreases j,
{
    if j > 0 {
        lemma_first_fit(slots.drop_first(), hint, num_vertices, j - 1);
    }
}

proof fn lemma_first_fit_none(slots: Seq<VertexBufferSlot>, hint: usize, num_vertices: usize)
    requires
        forall|k: int| 0 <= k < slots.len() ==> !fits(slots[k], hint, num_vertices),
    ensures
        first_fit(slots, hint, num_vertices) == slots.len(),
    decreases slots.len(),
{
    if slots.len() > 0 {
        lemma_first_fit_none(slots.drop_first(), hint, num_vertices);
    }
}

/// The selected slot always exists afterwards, serves the request and is marked as
/// just used; a reused slot keeps its buffer, a replaced or added slot needs a new one.
pub proof fn lemma_selected_slot_fits(
    before: Seq<VertexBufferSlot>,
    after: Seq<VertexBufferSlot>,
    hint: usize,
    num_vertices: usize,
    r: (usize, bool),
)
    requires
        before.len() <= MAX_BUFFERS,
        ({
            let a = aged(before);
            let p = first_fit(before, hint, num_vertices);
            let fresh = VertexBufferSlot { hint, age: 0, capacity: num_vertices };
            if p < before.len() {
                &&& r == (p as usize, false)
                &&& after == a.update(p, VertexBufferSlot { age: 0, ..a[p] })
            } else if before.len() < MAX_BUFFERS {
                &&& r == (before.len() as usize, true)
                &&& after == a.push(fresh)
            } else {
                &&& r.1
                &&& is_oldest(a, r.0 as int)
                &&& after == a.update(r.0 as int, fresh)
            }
        }),
    ensures
        r.0 < after.len() <= MAX_BUFFERS,
        fits(after[r.0 as int], hint, num_vertices),
        after[r.0 as int].age == 0,
        !r.1 ==> after[r.0 as int].capacity == before[r.0 as int].capacity,
{
    lemma_first_fit_bounds(before, hint, num_vertices);
}

proof fn lemma_first_fit_bounds(slots: Seq<VertexBufferSlot>, hint: usize, num_vertices: usize)
    ensures
        0 <= first_fit(slots, hint, num_vertices) <= slots.len(),
        first_fit(slots, hint, num_vertices) < slots.len() ==> fits(
            slots[first_fit(slots, hint, num_vertices)],
            hint,
            num_vertices,
        ),
    decreases slots.len(),
{
    if slots.len() > 0 {
        lemma_first_fit_bounds(slots.drop_first(), hint, num_vertices);
    }
}

} // verus!

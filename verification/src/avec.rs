use vstd::prelude::*;

verus! {

/// The capacity after growing a vector of capacity `capacity` so that it holds at
/// least `required` elements: unchanged if it already does, doubled if that is
/// enough, and exactly `required` otherwise.
pub open spec fn grown_capacity(capacity: nat, required: nat) -> nat {
    if required > capacity {
        if required > capacity * 2 {
            required
        } else {
            capacity * 2
        }
    } else {
        capacity
    }
}

/// `slots` extended with empty slots up to length `len`.
pub open spec fn extended<T>(slots: Seq<Option<T>>, len: nat) -> Seq<Option<T>> {
    slots + Seq::new((len - slots.len()) as nat, |i: int| None::<T>)
}

/// Whether growing to `required` elements can be computed without overflow.
pub open spec fn can_grow(capacity: nat, required: nat) -> bool {
    required <= capacity || capacity <= usize::MAX / 2
}

/// A read guard: a view of the first `size` slots of the [`AVec`] it was taken from, taken
/// while no writer is active. While the guard is alive the vector stays borrowed, so nothing
/// can be pushed, mapped or cleared.
pub struct AVecReadGuard<'a, T> {
    owner: &'a AVec<T>,
    size: usize,
}

/// A map guard: exclusive write access to the slots `start .. start + size` of an [`AVec`].
pub struct AVecMapGuard {
    start: usize,
    size: usize,
}

/// Vector reserving ranges of slots for writing (several non-overlapping ranges may be
/// reserved at once) and handing out read views of its filled slots. Reading borrows the
/// vector, so it is never read while it grows or is pushed to, mapped or cleared; a vector is
/// used by one owner at a time.
///
/// Slots that were reserved but not yet written are `None`. Clearing the vector
/// only resets its length; the slots keep their contents until they are written again.
pub struct AVec<T> {
    /// Buffer; its length is the capacity.
    data: Vec<Option<T>>,
    /// Next insert position.
    insert: usize,
    /// Number of active writers.
    writers: usize,
}

impl<'a, T> AVecReadGuard<'a, T> {
    #[verifier::type_invariant]
    spec fn covered(self) -> bool {
        self.size <= self.owner.data@.len()
    }

    /// Number of slots the guard covers.
    pub closed spec fn size(self) -> nat {
        self.size as nat
    }

    /// The vector the guard was taken from.
    pub closed spec fn owner(self) -> AVec<T> {
        *self.owner
    }

    fn new(owner: &'a AVec<T>, size: usize) -> (r: AVecReadGuard<'a, T>)
        requires
            size <= owner.spec_capacity(),
        ensures
            r.size() == size,
            r.owner() == *owner,
    {
        AVecReadGuard { owner, size }
    }

    /// Returns the slots covered by the guard.
    pub fn deref(&self) -> (r: &'a [Option<T>])
        ensures
            r@.len() == self.size(),
            r@ == self.owner().slots().subrange(0, self.size() as int),
    {
        proof {
            use_type_invariant(self);
        }
        vstd::slice::slice_subrange(self.owner.data.as_slice(), 0, self.size)
    }
}

impl AVecMapGuard {
    #[verifier::type_invariant]
    spec fn in_range(self) -> bool {
        self.start + self.size <= usize::MAX
    }

    /// First slot covered by the guard.
    pub closed spec fn start(self) -> nat {
        self.start as nat
    }

    /// Number of slots covered by the guard.
    pub closed spec fn size(self) -> nat {
        self.size as nat
    }

    fn new(start: usize, size: usize) -> (r: AVecMapGuard)
        requires
            start + size <= usize::MAX,
        ensures
            r.start() == start,
            r.size() == size,
    {
        AVecMapGuard { start, size }
    }

    /// Returns the mapped range of slots as `(start, end)`, end exclusive.
    pub fn mapped_range(&self) -> (r: (usize, usize))
        ensures
            r.0 == self.start(),
            r.1 == self.start() + self.size(),
    {
        proof {
            use_type_invariant(self);
        }
        (self.start, self.start + self.size)
    }

    /// Writes `value` to slot `index` of the mapped range, replacing what was there.
    pub fn set<T>(&self, owner: &mut AVec<T>, index: usize, value: T)
        requires
            old(owner).wf(),
            index < self.size(),
            self.start() + self.size() <= old(owner).spec_capacity(),
        ensures
            final(owner).wf(),
            final(owner).slots() == old(owner).slots().update(
                self.start() + index,
                Some(value),
            ),
            final(owner).spec_len() == old(owner).spec_len(),
            final(owner).writers() == old(owner).writers(),
    {
        let insert_pos = self.start + index;
        owner.data.set(insert_pos, Some(value));
    }

    /// Ends the write access the guard stands for.
    pub fn release<T>(self, owner: &mut AVec<T>)
        requires
            old(owner).wf(),
            old(owner).writers() > 0,
        ensures
            final(owner).wf(),
            final(owner).writers() == old(owner).writers() - 1,
            final(owner).slots() == old(owner).slots(),
            final(owner).spec_len() == old(owner).spec_len(),
    {
        owner.end_write();
    }
}

impl<T> AVec<T> {
    /// The slots of the buffer; their number is the capacity.
    pub closed spec fn slots(&self) -> Seq<Option<T>> {
        self.data@
    }

    /// The current length (next insert position).
    pub closed spec fn spec_len(&self) -> nat {
        self.insert as nat
    }

    /// The current capacity.
    pub closed spec fn spec_capacity(&self) -> nat {
        self.data@.len()
    }

    /// Number of active writers.
    pub closed spec fn writers(&self) -> nat {
        self.writers as nat
    }

    /// The vector's invariant: the length is within the capacity.
    pub closed spec fn wf(&self) -> bool {
        &&& self.insert <= self.data@.len()
        &&& self.data@.len() <= usize::MAX
    }

    /// Creates a new instance with given inital capacity
    pub fn new(initial_capacity: usize) -> (r: AVec<T>)
        ensures
            r.wf(),
            r.slots() == Seq::new(initial_capacity as nat, |i: int| None::<T>),
            r.spec_capacity() == initial_capacity,
            r.spec_len() == 0,
            r.writers() == 0,
    {
        let mut data: Vec<Option<T>> = Vec::with_capacity(initial_capacity);
        let mut i: usize = 0;
        while i < initial_capacity
            invariant
                i <= initial_capacity,
                data@ == Seq::new(i as nat, |j: int| None::<T>),
            decreases initial_capacity - i,
        {
            data.push(None);
            i = i + 1;
        }
        AVec { data, insert: 0, writers: 0 }
    }

    /// Returns the current length of the vector.
    pub fn len(&self) -> (r: usize)
        ensures
            r == self.spec_len(),
    {
        self.insert
    }

    /// Returns maximum capacity.
    pub fn capacity(&self) -> (r: usize)
        requires
            self.wf(),
        ensures
            r == self.spec_capacity(),
    {
        self.data.len()
    }

    /// Appends `additional` empty slots and returns the new capacity.
    fn internal_grow(&mut self, additional: usize) -> (r: usize)
        requires
            old(self).data@.len() + additional <= usize::MAX,
        ensures
            final(self).data@ == extended(old(self).data@, (old(self).data@.len() + additional) as nat),
            r == final(self).data@.len(),
            final(self).insert == old(self).insert,
            final(self).writers == old(self).writers,
    {
        let capacity = self.data.len();
        let target = capacity + additional;
        let ghost start = self.data@;
        while self.data.len() < target
            invariant
                capacity <= self.data@.len() <= target,
                start.len() == capacity,
                self.data@ == extended(start, self.data@.len()),
                self.insert == old(self).insert,
                self.writers == old(self).writers,
                start == old(self).data@,
            decreases target - self.data@.len(),
        {
            self.data.push(None);
            assert(self.data@ =~= extended(start, self.data@.len()));
        }
        self.data.len()
    }

    /// Grows the vector so that it can hold at least `required_capacity` elements:
    /// exactly that many if that is more than twice the current capacity, twice the
    /// current capacity otherwise. New slots are empty; existing ones are kept.
    pub fn grow(&mut self, required_capacity: usize)
        requires
            can_grow(old(self).spec_capacity(), required_capacity as nat),
        ensures
            old(self).wf() ==> final(self).wf(),
            final(self).spec_capacity() == grown_capacity(
                old(self).spec_capacity(),
                required_capacity as nat,
            ),
            final(self).slots() == extended(old(self).slots(), final(self).spec_capacity()),
            final(self).spec_len() == old(self).spec_len(),
            final(self).writers() == old(self).writers(),
    {
        let capacity = self.data.len();
        if required_capacity > capacity {
            if required_capacity > capacity * 2 {
                self.internal_grow(required_capacity - capacity);
            } else {
                self.internal_grow(capacity);
            }
        } else {
            assert(self.data@ =~= extended(self.data@, self.data@.len()));
        }
    }

    /// Begins a write. Readers hold a borrow of the vector, so none is active here.
    fn begin_write(&mut self)
        requires
            old(self).writers < usize::MAX,
        ensures
            final(self).writers == old(self).writers + 1,
            final(self).data == old(self).data,
            final(self).insert == old(self).insert,
    {
        self.writers = self.writers + 1;
    }

    /// Ends a write.
    fn end_write(&mut self)
        requires
            old(self).writers > 0,
        ensures
            final(self).writers == old(self).writers - 1,
            final(self).data == old(self).data,
            final(self).insert == old(self).insert,
    {
        self.writers = self.writers - 1;
    }

    /// Whether `new` is what pushing `value` onto `old` gives, with the value landing at `pos`.
    pub open spec fn pushed(old: AVec<T>, new: AVec<T>, value: T, pos: nat) -> bool {
        let capacity = grown_capacity(old.spec_capacity(), old.spec_len() + 1);
        &&& pos == old.spec_len()
        &&& new.spec_len() == old.spec_len() + 1
        &&& new.spec_capacity() == capacity
        &&& new.slots() == extended(old.slots(), capacity).update(pos as int, Some(value))
        &&& new.writers() == old.writers()
    }

    /// Whether `new` and `guard` are what mapping `size` slots of `old` gives.
    pub open spec fn mapped(old: AVec<T>, new: AVec<T>, size: nat, guard: AVecMapGuard) -> bool {
        let capacity = grown_capacity(old.spec_capacity(), old.spec_len() + size);
        &&& guard.start() == old.spec_len()
        &&& guard.size() == size
        &&& new.spec_len() == old.spec_len() + size
        &&& new.spec_capacity() == capacity
        &&& new.slots() == extended(old.slots(), capacity)
        &&& new.writers() == old.writers() + 1
    }

    /// Adds an element to the vector and returns the insert position.
    pub fn push(&mut self, value: T) -> (r: usize)
        requires
            old(self).wf(),
            old(self).writers() < usize::MAX,
            old(self).spec_len() < usize::MAX,
            can_grow(old(self).spec_capacity(), old(self).spec_len() + 1),
        ensures
            final(self).wf(),
            AVec::pushed(*old(self), *final(self), value, r as nat),
    {
        self.begin_write();
        let insert_pos = self.insert;
        self.insert = self.insert + 1;
        if insert_pos >= self.data.len() {
            self.grow(insert_pos + 1);
        } else {
            assert(self.data@ =~= extended(self.data@, self.data@.len()));
        }
        self.data.set(insert_pos, Some(value));
        self.end_write();
        insert_pos
    }

    /// Maps a slice of the vector for write access. Faster than individual pushes for size > 2.
    /// The write access lasts until the guard is released.
    pub fn map(&mut self, size: usize) -> (r: AVecMapGuard)
        requires
            old(self).wf(),
            old(self).writers() < usize::MAX,
            old(self).spec_len() + size <= usize::MAX,
            can_grow(old(self).spec_capacity(), old(self).spec_len() + size as nat),
        ensures
            final(self).wf(),
            AVec::mapped(*old(self), *final(self), size as nat, r),
    {
        self.begin_write();
        let insert_pos = self.insert;
        self.insert = self.insert + size;
        let required_capacity = insert_pos + size;
        if required_capacity > self.data.len() {
            self.grow(required_capacity);
        } else {
            assert(self.data@ =~= extended(self.data@, self.data@.len()));
        }
        AVecMapGuard::new(insert_pos, size)
    }

    /// Clears the vector. The capacity and the slots' contents are kept. There must be no
    /// active writer (readers hold a borrow of the vector, so none is active here).
    pub fn clear(&mut self)
        requires
            old(self).wf(),
            old(self).writers() == 0,
        ensures
            final(self).wf(),
            final(self).spec_len() == 0,
            final(self).spec_capacity() == old(self).spec_capacity(),
            final(self).slots() == old(self).slots(),
            final(self).writers() == 0,
    {
        self.insert = 0;
    }

    /// Maps the entire vector for read access: the guard covers the first `len()` slots. The
    /// read access lasts as long as the guard, which borrows the vector. There must be no
    /// active writer.
    pub fn get(&self) -> (r: AVecReadGuard<'_, T>)
        requires
            self.wf(),
            self.writers() == 0,
        ensures
            r.size() == self.spec_len(),
            r.size() <= self.spec_capacity(),
            r.owner() == *self,
    {
        let size = self.insert;
        AVecReadGuard::new(self, size)
    }
}

/// Two maps in a row reserve adjacent ranges that do not overlap, and both lie
/// within the capacity after the second map.
pub proof fn lemma_maps_disjoint<T>(
    a0: AVec<T>,
    a1: AVec<T>,
    a2: AVec<T>,
    size1: nat,
    size2: nat,
    g1: AVecMapGuard,
    g2: AVecMapGuard,
)
    requires
        AVec::mapped(a0, a1, size1, g1),
        AVec::mapped(a1, a2, size2, g2),
    ensures
        g1.start() + g1.size() == g2.start(),
        g2.start() + g2.size() <= a2.spec_capacity(),
        g1.start() + g1.size() <= a1.spec_capacity(),
{
}

/// A pushed value can be read back at the position `push` returned, and pushing
/// keeps every slot below the previous length.
pub proof fn lemma_push_then_read<T>(a0: AVec<T>, a1: AVec<T>, value: T, pos: nat)
    requires
        AVec::pushed(a0, a1, value, pos),
        a0.spec_len() <= a0.spec_capacity(),
    ensures
        pos < a1.spec_len() <= a1.spec_capacity(),
        a1.slots()[pos as int] == Some(value),
        forall|i: int| 0 <= i < a0.spec_len() ==> a1.slots()[i] == a0.slots()[i],
{
}

/// Growing never shrinks the capacity and always reaches the required size.
pub proof fn lemma_grown_capacity(capacity: nat, required: nat)
    ensures
        capacity <= grown_capacity(capacity, required),
        required <= grown_capacity(capacity, required),
        required > capacity ==> grown_capacity(capacity, required) >= capacity * 2,
{
}

/// A well-formed vector's length never exceeds its capacity, and it has one slot per unit of
/// capacity.
pub proof fn lemma_len_within_capacity<T>(v: AVec<T>)
    requires
        v.wf(),
    ensures
        v.spec_len() <= v.spec_capacity(),
        v.slots().len() == v.spec_capacity(),
{
}

/// One call on a vector: a push of a value that landed at a position, a map (reservation) of
/// a number of slots that returned a guard, the release of a map guard, or a clear.
pub enum AVecCall<T> {
    Push(T, nat),
    Reserve(nat, AVecMapGuard),
    Release,
    Clear,
}

/// Whether `call` takes the vector from state `a` to state `b`, as the call's contract states.
pub open spec fn call_step<T>(a: AVec<T>, b: AVec<T>, call: AVecCall<T>) -> bool {
    match call {
        AVecCall::Push(value, pos) => AVec::pushed(a, b, value, pos),
        AVecCall::Reserve(size, guard) => AVec::mapped(a, b, size, guard),
        AVecCall::Release => b.spec_len() == a.spec_len(),
        AVecCall::Clear => b.spec_len() == 0,
    }
}

/// The length after the calls, starting from length `len`: a push adds one, a map adds its
/// size, a clear resets it to zero.
pub open spec fn len_after<T>(len: nat, calls: Seq<AVecCall<T>>) -> nat
    decreases calls.len(),
{
    if calls.len() == 0 {
        len
    } else {
        let before = len_after(len, calls.drop_last());
        match calls.last() {
            AVecCall::Push(_, _) => before + 1,
            AVecCall::Reserve(size, _) => before + size,
            AVecCall::Release => before,
            AVecCall::Clear => 0,
        }
    }
}

/// After a run of pushes, maps, guard releases and clears, the length is the number of values
/// pushed plus the sizes mapped since the last clear (or since the start).
pub proof fn lemma_len_after_calls<T>(states: Seq<AVec<T>>, calls: Seq<AVecCall<T>>)
    requires
        states.len() == calls.len() + 1,
        forall|i: int| 0 <= i < calls.len() ==> #[trigger] call_step(states[i], states[i + 1], calls[i]),
    ensures
        states.last().spec_len() == len_after(states[0].spec_len(), calls),
    decreases calls.len(),
{
    if calls.len() > 0 {
        let n = calls.len() - 1;
        let s = states.drop_last();
        let c = calls.drop_last();
        assert forall|i: int| 0 <= i < c.len() implies #[trigger] call_step(s[i], s[i + 1], c[i]) by {
            assert(call_step(states[i], states[i + 1], calls[i]));
        }
        lemma_len_after_calls(s, c);
        assert(call_step(states[n], states[n + 1], calls[n]));
    }
}

} // verus!

use vstd::prelude::*;

verus! {

/// The names of a list of named entries, in order.
pub open spec fn entry_names<U>(entries: Seq<(Seq<char>, U)>) -> Seq<Seq<char>> {
    entries.map_values(|e: (Seq<char>, U)| e.0)
}

/// Whether no name occurs twice among the entries.
pub open spec fn names_unique<U>(entries: Seq<(Seq<char>, U)>) -> bool {
    forall|i: int, j: int|
        0 <= i < entries.len() && 0 <= j < entries.len() && i != j ==> #[trigger] entries[i].0
            != #[trigger] entries[j].0
}

/// Whether an entry has the given name.
pub open spec fn has_name<U>(entries: Seq<(Seq<char>, U)>, name: Seq<char>) -> bool {
    exists|i: int| 0 <= i < entries.len() && #[trigger] entries[i].0 == name
}

/// The position of the entry with the given name (meaningful where there is one).
pub open spec fn position_of<U>(entries: Seq<(Seq<char>, U)>, name: Seq<char>) -> int {
    choose|i: int| 0 <= i < entries.len() && #[trigger] entries[i].0 == name
}

/// The entries after inserting `value` under `name`: an existing entry of that name gets the
/// new value in its place; otherwise the entry is appended.
pub open spec fn inserted<U>(entries: Seq<(Seq<char>, U)>, name: Seq<char>, value: U) -> Seq<(Seq<char>, U)> {
    if has_name(entries, name) {
        entries.update(position_of(entries, name), (name, value))
    } else {
        entries.push((name, value))
    }
}

/// Whether an entry is named other than `name`.
pub open spec fn named_other<U>(name: Seq<char>) -> spec_fn((Seq<char>, U)) -> bool {
    |e: (Seq<char>, U)| e.0 != name
}

/// The entries after removing the ones named `name`.
pub open spec fn removed<U>(entries: Seq<(Seq<char>, U)>, name: Seq<char>) -> Seq<(Seq<char>, U)> {
    entries.filter(named_other(name))
}

/// The value stored under `name`, if any.
pub open spec fn value_of<U>(entries: Seq<(Seq<char>, U)>, name: Seq<char>) -> Option<U> {
    if has_name(entries, name) {
        Some(entries[position_of(entries, name)].1)
    } else {
        None
    }
}

/// Multiple uniforms held by a program.
///
/// Uniforms are kept in insertion order; re-inserting an existing name replaces the
/// value without changing its position. A uniform's value type is `U`.
pub struct UniformList<U>(Vec<(String, U)>);

impl<U> View for UniformList<U> {
    type V = Seq<(Seq<char>, U)>;

    closed spec fn view(&self) -> Seq<(Seq<char>, U)> {
        self.0@.map_values(|e: (String, U)| (e.0@, e.1))
    }
}

impl<U> UniformList<U> {
    /// Whether no name occurs twice in the list.
    pub open spec fn wf(&self) -> bool {
        names_unique(self@)
    }

    /// Creates a new uniform list.
    pub fn new() -> (r: Self)
        ensures
            r@ == Seq::<(Seq<char>, U)>::empty(),
            r.wf(),
    {
        let r = UniformList(Vec::new());
        assert(r@ =~= Seq::<(Seq<char>, U)>::empty());
        r
    }

    /// The number of uniforms in the list.
    pub fn len(&self) -> (r: usize)
        ensures
            r == self@.len(),
    {
        self.0.len()
    }

    /// Finds the position of the entry named `key`.
    fn find(&self, key: &String) -> (r: Option<usize>)
        ensures
            match r {
                Some(i) => i < self@.len() && self@[i as int].0 == key@,
                None => !has_name(self@, key@),
            },
    {
        let mut i: usize = 0;
        while i < self.0.len()
            invariant
                i <= self.0@.len(),
                forall|j: int| 0 <= j < i ==> self@[j].0 != key@,
            decreases self.0@.len() - i,
        {
            if self.0[i].0 == *key {
                return Some(i);
            }
            i = i + 1;
        }
        assert forall|j: int| 0 <= j < self@.len() implies #[trigger] self@[j].0 != key@ by {}
        None
    }

    /// Inserts a uniform into the list: replaces the value of an existing uniform of that
    /// name in its place, or appends a new one.
    pub fn insert(&mut self, name: &str, uniform: U)
        requires
            old(self).wf(),
        ensures
            final(self).wf(),
            final(self)@ == inserted(old(self)@, name@, uniform),
    {
        let key = name.to_owned();
        match self.find(&key) {
            Some(i) => {
                let ghost old_view = self@;
                let (existing, _) = self.0.remove(i);
                self.0.insert(i, (existing, uniform));
                proof {
                    let n = name@;
                    let p = position_of(old_view, n);
                    assert(old_view[i as int].0 == n);
                    assert(p == i as int) by {
                        assert(0 <= p < old_view.len() && old_view[p].0 == n);
                    }
                    assert(self@ =~= old_view.update(i as int, (n, uniform)));
                }
            },
            None => {
                let ghost old_view = self@;
                self.0.push((key, uniform));
                assert(self@ =~= old_view.push((name@, uniform)));
            },
        }
    }

    /// Removes a uniform from the list and returns whether it existed.
    pub fn remove(&mut self, name: &str) -> (r: bool)
        requires
            old(self).wf(),
        ensures
            final(self).wf(),
            r == has_name(old(self)@, name@),
            final(self)@ == removed(old(self)@, name@),
    {
        let key = name.to_owned();
        let ghost old_view = self@;
        match self.find(&key) {
            Some(i) => {
                self.0.remove(i);
                proof {
                    lemma_remove_unique(old_view, i as int, name@);
                    assert(self@ =~= old_view.remove(i as int));
                }
                true
            },
            None => {
                proof {
                    lemma_removed_absent(old_view, name@);
                }
                false
            },
        }
    }

    /// Returns the uniform with the given name.
    pub fn get(&self, name: &str) -> (r: Option<&U>)
        requires
            self.wf(),
        ensures
            match value_of(self@, name@) {
                Some(v) => r == Some(&v),
                None => r is None,
            },
    {
        let key = name.to_owned();
        match self.find(&key) {
            Some(i) => {
                proof {
                    let p = position_of(self@, name@);
                    assert(0 <= p < self@.len() && self@[p].0 == name@);
                }
                Some(&self.0[i].1)
            },
            None => None,
        }
    }

    /// The name and value of the uniform at position `index`, in insertion order.
    pub fn entry(&self, index: usize) -> (r: (&str, &U))
        requires
            index < self@.len(),
        ensures
            r.0@ == self@[index as int].0,
            *r.1 == self@[index as int].1,
    {
        let e = &self.0[index];
        (e.0.as_str(), &e.1)
    }
}

proof fn lemma_removed_absent<U>(entries: Seq<(Seq<char>, U)>, name: Seq<char>)
    requires
        !has_name(entries, name),
    ensures
        removed(entries, name) == entries,
    decreases entries.len(),
{
    reveal(Seq::filter);
    if entries.len() > 0 {
        let prefix = entries.drop_last();
        assert(!has_name(prefix, name)) by {
            if has_name(prefix, name) {
                let i = position_of(prefix, name);
                assert(entries[i].0 == name);
            }
        }
        lemma_removed_absent(prefix, name);
        assert(entries.last().0 != name) by {
            assert(entries[entries.len() - 1].0 != name);
        }
        assert(entries =~= prefix.push(entries.last()));
    } else {
        assert(removed(entries, name) =~= entries);
    }
}

proof fn lemma_unique_after_remove<U>(entries: Seq<(Seq<char>, U)>, i: int)
    requires
        names_unique(entries),
        0 <= i < entries.len(),
    ensures
        names_unique(entries.remove(i)),
{
    let r = entries.remove(i);
    assert forall|a: int, b: int|
        0 <= a < r.len() && 0 <= b < r.len() && a != b implies #[trigger] r[a].0 != #[trigger] r[b].0 by {
        let oa = if a < i { a } else { a + 1 };
        let ob = if b < i { b } else { b + 1 };
        assert(r[a] == entries[oa]);
        assert(r[b] == entries[ob]);
    }
}

proof fn lemma_remove_unique<U>(entries: Seq<(Seq<char>, U)>, i: int, name: Seq<char>)
    requires
        names_unique(entries),
        0 <= i < entries.len(),
        entries[i].0 == name,
    ensures
        removed(entries, name) == entries.remove(i),
        names_unique(entries.remove(i)),
    decreases entries.len(),
{
    lemma_unique_after_remove(entries, i);
    let last = entries.len() - 1;
    let prefix = entries.drop_last();
    let pred = named_other::<U>(name);
    if i == last {
        assert(!has_name(prefix, name)) by {
            if has_name(prefix, name) {
                let j = position_of(prefix, name);
                assert(entries[j].0 == entries[last].0);
            }
        }
        lemma_removed_absent(prefix, name);
        assert(entries.filter(pred) == prefix.filter(pred)) by {
            reveal(Seq::filter);
        }
        assert(entries.remove(i) =~= prefix);
    } else {
        assert(names_unique(prefix)) by {
            assert forall|a: int, b: int|
                0 <= a < prefix.len() && 0 <= b < prefix.len() && a != b implies #[trigger] prefix[a].0
                != #[trigger] prefix[b].0 by {
                assert(prefix[a] == entries[a] && prefix[b] == entries[b]);
            }
        }
        lemma_remove_unique(prefix, i, name);
        assert(entries.last().0 != name) by {
            assert(entries[last].0 != entries[i].0);
        }
        assert(entries.filter(pred) == prefix.filter(pred).push(entries.last())) by {
            reveal(Seq::filter);
        }
        assert(entries.remove(i) =~= prefix.remove(i).push(entries.last()));
    }
}

/// Re-inserting a name replaces its value in place: the list keeps its length, the entry
/// keeps its position, and every other entry is unchanged.
pub proof fn lemma_reinsert_keeps_position<U>(entries: Seq<(Seq<char>, U)>, i: int, value: U)
    requires
        names_unique(entries),
        0 <= i < entries.len(),
    ensures
        inserted(entries, entries[i].0, value).len() == entries.len(),
        inserted(entries, entries[i].0, value)[i] == (entries[i].0, value),
        forall|j: int|
            0 <= j < entries.len() && j != i ==> #[trigger] inserted(entries, entries[i].0, value)[j]
                == entries[j],
{
    let name = entries[i].0;
    assert(has_name(entries, name));
    let p = position_of(entries, name);
    assert(0 <= p < entries.len() && entries[p].0 == name);
    assert(p == i);
}

/// A new name is appended at the end, after all existing entries.
pub proof fn lemma_insert_new_appends<U>(entries: Seq<(Seq<char>, U)>, name: Seq<char>, value: U)
    requires
        !has_name(entries, name),
    ensures
        inserted(entries, name, value) == entries.push((name, value)),
{
}

/// What was inserted under a name is found again under it.
pub proof fn lemma_get_after_insert<U>(entries: Seq<(Seq<char>, U)>, name: Seq<char>, value: U)
    requires
        names_unique(entries),
    ensures
        names_unique(inserted(entries, name, value)),
        value_of(inserted(entries, name, value), name) == Some(value),
{
    let r = inserted(entries, name, value);
    if has_name(entries, name) {
        let p = position_of(entries, name);
        assert(0 <= p < entries.len() && entries[p].0 == name);
        assert(r[p].0 == name);
        assert(has_name(r, name));
        let q = position_of(r, name);
        assert(0 <= q < r.len() && r[q].0 == name);
        if q != p {
            assert(entries[q].0 == name);
        }
        assert forall|a: int, b: int|
            0 <= a < r.len() && 0 <= b < r.len() && a != b implies #[trigger] r[a].0 != #[trigger] r[b].0 by {
            assert(r[a].0 == entries[a].0);
            assert(r[b].0 == entries[b].0);
        }
    } else {
        let last = entries.len() as int;
        assert(r[last].0 == name);
        assert(has_name(r, name));
        let q = position_of(r, name);
        assert(0 <= q < r.len() && r[q].0 == name);
        if q != last {
            assert(entries[q].0 == name);
        }
        assert forall|a: int, b: int|
            0 <= a < r.len() && 0 <= b < r.len() && a != b implies #[trigger] r[a].0 != #[trigger] r[b].0 by {
            if a < last && b < last {
                assert(r[a] == entries[a] && r[b] == entries[b]);
            } else if a < last {
                assert(r[a] == entries[a]);
            } else if b < last {
                assert(r[b] == entries[b]);
            }
        }
    }
}

/// A removed name is no longer found, and nothing else is lost.
pub proof fn lemma_get_after_remove<U>(entries: Seq<(Seq<char>, U)>, name: Seq<char>, other: Seq<char>)
    requires
        names_unique(entries),
        other != name,
    ensures
        value_of(removed(entries, name), name) is None,
        value_of(removed(entries, name), other) == value_of(entries, other),
{
    broadcast use vstd::seq_lib::group_filter_ensures;

    let r = removed(entries, name);
    if has_name(r, name) {
        let q = position_of(r, name);
        assert(r.contains(r[q]));
        assert(false);
    }
    if has_name(entries, other) {
        let p = position_of(entries, other);
        assert(0 <= p < entries.len() && entries[p].0 == other);
        assert(r.contains(entries[p])) by {
            entries.lemma_filter_contains(named_other(name), p);
        }
        assert(has_name(r, other)) by {
            let k = choose|k: int| 0 <= k < r.len() && r[k] == entries[p];
            assert(r[k].0 == other);
        }
        let q = position_of(r, other);
        assert(0 <= q < r.len() && r[q].0 == other);
        entries.lemma_filter_contains_rev(named_other(name), r[q]);
        let k2 = choose|k: int| 0 <= k < entries.len() && entries[k] == r[q];
        assert(entries[k2].0 == other);
        assert(k2 == p);
    } else {
        if has_name(r, other) {
            let q = position_of(r, other);
            assert(0 <= q < r.len() && r[q].0 == other);
            entries.lemma_filter_contains_rev(named_other(name), r[q]);
            let k = choose|k: int| 0 <= k < entries.len() && entries[k] == r[q];
            assert(entries[k].0 == other);
        }
    }
}

} // verus!

//! Store for the packets with QoS > 0.
//!
//! This will permit to store the values and resend them when reconnecting with a clean session.
use vstd::prelude::*;
use vstd::pervasive::VecAdditionalExecFns;

verus! {

/// Slab element
#[derive(Debug)]
pub enum Entry<T> {
    /// A free element
    Free {
        /// The next free element of the slab
        next_free: Option<usize>,
    },
    /// A occupied  element
    Occupied(T),
}

/// The value held by an entry: `None` when it is free.
pub open spec fn spec_entry_value<T>(e: Entry<T>) -> Option<T> {
    match e {
        Entry::Free { .. } => None,
        Entry::Occupied(v) => Some(v),
    }
}

/// The link a free entry at position `k` of the free list holds: the next position, if any.
pub open spec fn spec_free_link(free: Seq<usize>, k: int) -> Option<usize> {
    if k + 1 < free.len() {
        Some(free[k + 1])
    } else {
        None
    }
}

/// Every index below the maximum holds a value: no value can be inserted.
pub open spec fn spec_slab_full<T>(v: (usize, Map<usize, T>)) -> bool {
    forall|i: usize| i < v.0 ==> #[trigger] v.1.contains_key(i)
}

impl<T> Entry<T> {
    /// Returns `true` if the entry is [`Free`].
    ///
    /// [`Free`]: Entry::Free
    fn is_free(&self) -> (r: bool)
        ensures
            r == (*self is Free),
    {
        match self {
            Entry::Free { .. } => true,
            Entry::Occupied(_) => false,
        }
    }

    /// Stores the value returning the next free entry.
    fn store(&mut self, value: T) -> (r: Option<usize>)
        requires
            *old(self) is Free,
        ensures
            *final(self) == Entry::Occupied(value),
            old(self)->Free_next_free == r,
    {
        let mut entry = Entry::Occupied(value);
        core::mem::swap(self, &mut entry);
        match entry {
            Entry::Free { next_free } => next_free,
            Entry::Occupied(_) => None,
        }
    }

    /// Returns a reference to the value of an [`Occupied`](Entry::Occupied) entry.
    pub fn as_occupied(&self) -> (r: Option<&T>)
        ensures
            match r {
                Some(v) => spec_entry_value(*self) == Some(*v),
                None => spec_entry_value(*self) is None,
            },
    {
        match self {
            Entry::Occupied(v) => Some(v),
            Entry::Free { .. } => None,
        }
    }
}

/// Store of values at stable indexes, with a maximum number of entries.
///
/// The free entries are linked from `next_free`: each one holds the index of the next.
pub struct Slab<T> {
    max_items: usize,
    next_free: Option<usize>,
    store: Vec<Entry<T>>,
    free: Ghost<Seq<usize>>,
}

impl<T> View for Slab<T> {
    /// The maximum number of entries, and the value stored at each occupied index.
    type V = (usize, Map<usize, T>);

    closed spec fn view(&self) -> (usize, Map<usize, T>) {
        (
            self.max_items,
            Map::new(
                |i: usize| (i as int) < self.store@.len() && self.store@[i as int] is Occupied,
                |i: usize| spec_entry_value(self.store@[i as int])->Some_0,
            ),
        )
    }
}

impl<T> Slab<T> {
    /// The entries are no more than the maximum, and the free list starting at `next_free`
    /// visits each free entry exactly once.
    pub closed spec fn wf(&self) -> bool {
        &&& self.store@.len() <= self.max_items
        &&& self.free@.no_duplicates()
        &&& forall|k: int| 0 <= k < self.free@.len() ==> (#[trigger] self.free@[k] as int) < self.store@.len()
        &&& self.next_free == (if self.free@.len() == 0 {
            None::<usize>
        } else {
            Some(self.free@[0])
        })
        &&& forall|k: int|
            0 <= k < self.free@.len() ==> self.store@[#[trigger] self.free@[k] as int]
                == Entry::<T>::Free { next_free: spec_free_link(self.free@, k) }
        &&& forall|i: int|
            0 <= i < self.store@.len() && #[trigger] self.store@[i] is Free ==> self.free@.contains(
                i as usize,
            )
    }

    /// The index the next inserted value takes: the first of the free list, or a new entry.
    pub closed spec fn spec_next_index(&self) -> usize {
        match self.next_free {
            Some(i) => i,
            None => self.store@.len() as usize,
        }
    }

    /// Create a new empty slab that holds at most `max_items` entries.
    pub fn new(max_items: usize) -> (r: Self)
        ensures
            r.wf(),
            r@ == (max_items, Map::<usize, T>::empty()),
            r.spec_next_index() == 0,
    {
        let this = Self { max_items, next_free: None, store: Vec::new(), free: Ghost(Seq::empty()) };
        proof {
            assert(this@.1 =~= Map::<usize, T>::empty());
        }
        this
    }

    /// The index of the next value is free and below the maximum, unless the slab is full.
    proof fn lemma_next_index(&self)
        requires
            self.wf(),
        ensures
            spec_slab_full(self@) <==> (self.next_free is None && self.store@.len()
                == self.max_items),
            !spec_slab_full(self@) ==> self.spec_next_index() < self@.0 && !self@.1.contains_key(
                self.spec_next_index(),
            ),
    {
        if let Some(n) = self.next_free {
            assert(self.store@[self.free@[0] as int] is Free);
            assert(!self@.1.contains_key(n));
        } else if self.store@.len() == self.max_items {
            assert forall|i: usize| i < self@.0 implies #[trigger] self@.1.contains_key(i) by {
                if self.store@[i as int] is Free {
                    assert(self.free@.contains(i));
                }
            }
        } else {
            let n = self.store@.len() as usize;
            assert(!self@.1.contains_key(n));
        }
    }

    /// Returns the next free index or reserve a new empty one.
    fn reserve_next(&mut self) -> (r: Option<usize>)
        requires
            old(self).wf(),
        ensures
            final(self).wf(),
            final(self)@ == old(self)@,
            final(self).spec_next_index() == old(self).spec_next_index(),
            spec_slab_full(old(self)@) ==> r is None,
            !spec_slab_full(old(self)@) ==> r == Some(old(self).spec_next_index())
                && final(self).next_free == r,
    {
        proof {
            self.lemma_next_index();
        }
        if let Some(next_free) = self.next_free {
            return Some(next_free);
        }
        let idx = self.store.len();
        if idx >= self.max_items {
            return None;
        }
        let ghost prev = self@;
        self.store.push(Entry::Free { next_free: None });
        self.next_free = Some(idx);
        proof {
            self.free@ = seq![idx];
        }
        proof {
            assert(self@.1 =~= prev.1);
            assert(self.free@.no_duplicates());
            assert(self.free@[0] == idx);
            assert(spec_free_link(self.free@, 0) is None);
            assert forall|i: int|
                0 <= i < self.store@.len() && #[trigger] self.store@[i] is Free implies self.free@.contains(
                i as usize,
            ) by {
                if i < idx {
                    assert(self.store@[i] == old(self).store@[i]);
                    assert(!old(self).free@.contains(i as usize));
                } else {
                    assert(self.free@[0] == i as usize);
                }
            }
        }
        Some(idx)
    }

    /// Stores the value at the first entry of the free list, which leaves the list.
    fn occupy(&mut self, idx: usize, value: T)
        requires
            old(self).wf(),
            old(self).next_free == Some(idx),
        ensures
            final(self).wf(),
            final(self)@ == (old(self)@.0, old(self)@.1.insert(idx, value)),
    {
        let ghost prev = *self;
        let mut entry = Entry::Free { next_free: None };
        self.store.set_and_swap(idx, &mut entry);
        proof {
            assert(prev.store@[prev.free@[0] as int] == Entry::<T>::Free {
                next_free: spec_free_link(prev.free@, 0),
            });
        }
        let next = entry.store(value);
        self.store.set_and_swap(idx, &mut entry);
        self.next_free = next;
        proof {
            self.free@ = prev.free@.drop_first();
        }
        proof {
            let fr = self.free@;
            assert(self.store@ == prev.store@.update(idx as int, Entry::Occupied(value)));
            assert forall|k: int| 0 <= k < fr.len() implies #[trigger] fr[k] != idx by {
                assert(fr[k] == prev.free@[k + 1]);
            }
            assert forall|k: int| 0 <= k < fr.len() implies self.store@[#[trigger] fr[k] as int]
                == Entry::<T>::Free { next_free: spec_free_link(fr, k) } by {
                assert(fr[k] == prev.free@[k + 1]);
                assert(prev.store@[prev.free@[k + 1] as int] == Entry::<T>::Free {
                    next_free: spec_free_link(prev.free@, k + 1),
                });
                assert(spec_free_link(fr, k) == spec_free_link(prev.free@, k + 1));
            }
            assert forall|i: int|
                0 <= i < self.store@.len() && #[trigger] self.store@[i] is Free implies fr.contains(
                i as usize,
            ) by {
                assert(prev.store@[i] is Free);
                assert(prev.free@.contains(i as usize));
                let k = choose|k: int| 0 <= k < prev.free@.len() && prev.free@[k] == i as usize;
                assert(k != 0);
                assert(fr[k - 1] == i as usize);
            }
            assert forall|k: int| 0 <= k < fr.len() implies (#[trigger] fr[k] as int)
                < self.store@.len() by {
                assert(fr[k] == prev.free@[k + 1]);
            }
            assert(fr.no_duplicates()) by {
                assert forall|a: int, b: int| 0 <= a < b < fr.len() implies fr[a] != fr[b] by {
                    assert(fr[a] == prev.free@[a + 1] && fr[b] == prev.free@[b + 1]);
                }
            }
            assert(self@.1 =~= prev@.1.insert(idx, value));
        }
    }

    /// Insert a new value in the first free element if there is still space in the slab.
    ///
    /// The closure gets the index of the element and gives the value to store and the result to
    /// return. It's not called when every index below the maximum holds a value.
    pub fn insert<F, O>(&mut self, f: F) -> (r: Option<O>) where F: FnOnce(usize) -> (T, O)
        requires
            old(self).wf(),
            !spec_slab_full(old(self)@) ==> f.requires((old(self).spec_next_index(),)),
        ensures
            final(self).wf(),
            spec_slab_full(old(self)@) ==> r is None && final(self)@ == old(self)@,
            !spec_slab_full(old(self)@) ==> ({
                let idx = old(self).spec_next_index();
                &&& idx < old(self)@.0
                &&& !old(self)@.1.contains_key(idx)
                &&& r matches Some(out)
                &&& final(self)@.1.contains_key(idx)
                &&& f.ensures((idx,), (final(self)@.1[idx], out))
                &&& final(self)@ == (old(self)@.0, old(self)@.1.insert(idx, final(self)@.1[idx]))
            }),
    {
        proof {
            self.lemma_next_index();
        }
        let idx = match self.reserve_next() {
            Some(idx) => idx,
            None => return None,
        };
        let (value, out) = f(idx);
        self.occupy(idx, value);
        Some(out)
    }

    /// Insert a new value in the first free element if there is still space in the slab.
    ///
    /// The closure gets the index of the element and gives the value to store and the result to
    /// return, or an error. On an error nothing that can be observed changes.
    pub fn try_insert<F, O, E>(&mut self, f: F) -> (r: Result<Option<O>, E>) where
        F: FnOnce(usize) -> Result<(T, O), E>,

        requires
            old(self).wf(),
            !spec_slab_full(old(self)@) ==> f.requires((old(self).spec_next_index(),)),
        ensures
            final(self).wf(),
            spec_slab_full(old(self)@) ==> (r matches Ok(None) && final(self)@ == old(self)@),
            !spec_slab_full(old(self)@) ==> ({
                let idx = old(self).spec_next_index();
                &&& idx < old(self)@.0
                &&& !old(self)@.1.contains_key(idx)
                &&& match r {
                    Ok(Some(out)) => final(self)@.1.contains_key(idx) && f.ensures(
                        (idx,),
                        Ok::<(T, O), E>((final(self)@.1[idx], out)),
                    ) && final(self)@ == (old(self)@.0, old(self)@.1.insert(idx, final(self)@.1[idx])),
                    Ok(None) => false,
                    Err(e) => f.ensures((idx,), Err::<(T, O), E>(e)) && final(self)@ == old(self)@
                        && final(self).spec_next_index() == idx,
                }
            }),
    {
        proof {
            self.lemma_next_index();
        }
        let idx = match self.reserve_next() {
            Some(idx) => idx,
            None => return Ok(None),
        };
        let (value, out) = match f(idx) {
            Ok(p) => p,
            Err(e) => return Err(e),
        };
        self.occupy(idx, value);
        Ok(Some(out))
    }

    /// Removes an element from the slab given the index; a freed index is the next to be used.
    pub fn remove(&mut self, idx: usize) -> (r: Option<T>)
        requires
            old(self).wf(),
        ensures
            final(self).wf(),
            old(self)@.1.contains_key(idx) ==> r == Some(old(self)@.1[idx]) && final(self)@ == (
                old(self)@.0,
                old(self)@.1.remove(idx),
            ) && final(self).spec_next_index() == idx,
            !old(self)@.1.contains_key(idx) ==> r is None && final(self)@ == old(self)@
                && final(self).spec_next_index() == old(self).spec_next_index(),
    {
        let ghost prev = *self;
        if idx >= self.store.len() {
            return None;
        }
        let mut entry = Entry::Free { next_free: self.next_free };
        self.store.set_and_swap(idx, &mut entry);
        if entry.is_free() {
            self.store.set_and_swap(idx, &mut entry);
            proof {
                assert(self.store@ =~= prev.store@);
            }
            return None;
        }
        self.next_free = Some(idx);
        proof {
            self.free@ = seq![idx] + prev.free@;
        }
        proof {
            let fr = self.free@;
            assert(!prev.free@.contains(idx)) by {
                if prev.free@.contains(idx) {
                    let k = choose|k: int| 0 <= k < prev.free@.len() && prev.free@[k] == idx;
                    assert(prev.store@[prev.free@[k] as int] is Free);
                }
            }
            assert forall|k: int| 0 <= k < fr.len() implies (#[trigger] fr[k] as int)
                < self.store@.len() by {
                if k > 0 {
                    assert(fr[k] == prev.free@[k - 1]);
                }
            }
            assert forall|k: int| 0 <= k < fr.len() implies self.store@[#[trigger] fr[k] as int]
                == Entry::<T>::Free { next_free: spec_free_link(fr, k) } by {
                if k > 0 {
                    assert(fr[k] == prev.free@[k - 1]);
                    assert(prev.store@[prev.free@[k - 1] as int] == Entry::<T>::Free {
                        next_free: spec_free_link(prev.free@, k - 1),
                    });
                    assert(spec_free_link(fr, k) == spec_free_link(prev.free@, k - 1));
                } else {
                    assert(spec_free_link(fr, 0) == prev.next_free);
                }
            }
            assert forall|i: int|
                0 <= i < self.store@.len() && #[trigger] self.store@[i] is Free implies fr.contains(
                i as usize,
            ) by {
                if i == idx as int {
                    assert(fr[0] == idx);
                } else {
                    assert(prev.store@[i] is Free);
                    let k = choose|k: int| 0 <= k < prev.free@.len() && prev.free@[k] == i as usize;
                    assert(fr[k + 1] == i as usize);
                }
            }
            assert(fr.no_duplicates()) by {
                assert forall|a: int, b: int| 0 <= a < b < fr.len() implies fr[a] != fr[b] by {
                    assert(fr[b] == prev.free@[b - 1]);
                    if a > 0 {
                        assert(fr[a] == prev.free@[a - 1]);
                    }
                }
            }
            assert(self@.1 =~= prev@.1.remove(idx));
        }
        match entry {
            Entry::Occupied(value) => Some(value),
            Entry::Free { .. } => None,
        }
    }

    /// Returns an occupied element given the index.
    pub fn get(&mut self, idx: usize) -> (r: Option<&T>)
        requires
            old(self).wf(),
        ensures
            *final(self) == *old(self),
            match r {
                Some(v) => old(self)@.1.contains_key(idx) && old(self)@.1[idx] == *v,
                None => !old(self)@.1.contains_key(idx),
            },
    {
        if idx >= self.store.len() {
            return None;
        }
        self.store[idx].as_occupied()
    }
}

} // verus!

//! The base identity-stable container.

use vstd::prelude::*;

use crate::ContainerError;

verus! {

/// Dense storage of values keyed by recyclable stable identities.
///
/// Three parallel tables are kept in lock-step:
/// - `data` holds the live values; its length is the live count.
/// - `id` holds, for every slot ever allocated, the identity currently bound
///   to that slot. Entries at positions at or beyond the live count are
///   tombstones: identities freed by removal, kept for recycling.
/// - `data_index` is the inverse of `id`: for every identity ever issued, the
///   position currently holding it.
///
/// The identity tables never shrink (except on `clear`); only `data` does.
pub struct Container<T> {
    data_index: Vec<usize>,
    id: Vec<usize>,
    data: Vec<T>,
}

impl<T> Container<T> {
    /// The identity table: the identity bound to each slot, live or tombstone.
    pub closed spec fn ids(&self) -> Seq<usize> {
        self.id@
    }

    /// The index table: the slot bound to each identity.
    pub closed spec fn index_table(&self) -> Seq<usize> {
        self.data_index@
    }

    /// The live values, in slot order.
    pub closed spec fn values(&self) -> Seq<T> {
        self.data@
    }

    /// How many identities have ever been issued (the high-water mark).
    pub open spec fn id_count(&self) -> int {
        self.ids().len() as int
    }

    /// How many elements are currently live.
    pub open spec fn live_count(&self) -> int {
        self.values().len() as int
    }

    /// Whether `id` was ever issued (live or tombstone).
    pub open spec fn has_id(&self, id: usize) -> bool {
        (id as int) < self.id_count()
    }

    /// The slot currently bound to the issued identity `id`.
    pub open spec fn slot_of(&self, id: usize) -> int {
        self.index_table()[id as int] as int
    }

    /// Whether `id` is bound to a live value.
    pub open spec fn is_live(&self, id: usize) -> bool {
        self.has_id(id) && self.slot_of(id) < self.live_count()
    }

    /// The value bound to the live identity `id`.
    pub open spec fn value_of(&self, id: usize) -> T {
        self.values()[self.slot_of(id)]
    }

    /// Well-formedness: the identity table holds a permutation of the slot
    /// numbers `0 .. id_count`, the index table is its inverse, and the live
    /// range is a prefix of the table.
    pub open spec fn wf(&self) -> bool {
        &&& self.index_table().len() == self.id_count()
        &&& self.live_count() <= self.id_count()
        &&& forall|s: int|
            0 <= s < self.id_count() ==> (#[trigger] self.ids()[s]) < self.id_count()
        &&& forall|s: int|
            0 <= s < self.id_count() ==> self.index_table()[#[trigger] self.ids()[s] as int] == s
        &&& forall|v: int|
            0 <= v < self.id_count() ==> (#[trigger] self.index_table()[v]) < self.id_count()
        &&& forall|v: int|
            0 <= v < self.id_count() ==> self.ids()[#[trigger] self.index_table()[v] as int] == v
    }

    /// Creates an empty container.
    pub fn new() -> (r: Container<T>)
        ensures
            r.wf(),
            r.id_count() == 0,
            r.live_count() == 0,
    {
        Container { data_index: Vec::new(), id: Vec::new(), data: Vec::new() }
    }

    /// Returns the number of elements currently stored in the container.
    pub fn size(&self) -> (r: usize)
        ensures
            r as int == self.live_count(),
    {
        self.data.len()
    }

    /// Returns `true` if the container holds no live elements.
    pub fn empty(&self) -> (r: bool)
        ensures
            r <==> self.live_count() == 0,
    {
        self.data.is_empty()
    }

    /// Clears all elements, identities and index entries, discarding the
    /// tombstone pool: identity allocation restarts from zero.
    pub fn clear(&mut self)
        ensures
            final(self).wf(),
            final(self).id_count() == 0,
            final(self).live_count() == 0,
    {
        self.data.clear();
        self.id.clear();
        self.data_index.clear();
    }

    /// Retrieves the identity bound to the given slot, live or tombstone.
    /// Fails with `IndexOutOfBounds` if the slot exceeds the identity table.
    pub fn get_id_from_index(&self, index: usize) -> (r: Result<usize, ContainerError>)
        ensures
            match r {
                Ok(i) => (index as int) < self.id_count() && i == self.ids()[index as int],
                Err(e) => (index as int) >= self.id_count() && e == ContainerError::IndexOutOfBounds,
            },
    {
        if index < self.id.len() {
            Ok(self.id[index])
        } else {
            Err(ContainerError::IndexOutOfBounds)
        }
    }

    /// Replaces the value bound to the given identity, in place: no slot
    /// moves. Fails with `IdNotFound` if the identity was never issued, and
    /// with `StaleIndex` if it is a tombstone left behind by a removal; a
    /// failing call leaves the container unchanged.
    pub fn update(&mut self, id: usize, new_data: T) -> (r: Result<(), ContainerError>)
        requires
            old(self).wf(),
        ensures
            final(self).wf(),
            r is Ok <==> old(self).is_live(id),
            r == Err::<(), ContainerError>(ContainerError::IdNotFound) <==> !old(self).has_id(id),
            r == Err::<(), ContainerError>(ContainerError::StaleIndex) <==> (old(self).has_id(id)
                && !old(self).is_live(id)),
            r is Err ==> *final(self) == *old(self),
            r is Ok ==> {
                &&& final(self).ids() == old(self).ids()
                &&& final(self).index_table() == old(self).index_table()
                &&& final(self).values() == old(self).values().update(
                    old(self).slot_of(id),
                    new_data,
                )
            },
            r is Ok ==> final(self).is_live(id) && final(self).value_of(id) == new_data,
            r is Ok ==> forall|v: usize|
                v != id ==> (#[trigger] final(self).is_live(v) <==> old(self).is_live(v)),
            r is Ok ==> forall|v: usize|
                v != id && old(self).is_live(v) ==> #[trigger] final(self).value_of(v) == old(
                    self,
                ).value_of(v),
    {
        if id < self.id.len() {
            let slot = self.data_index[id];
            if slot < self.data.len() {
                self.data.set(slot, new_data);
                Ok(())
            } else {
                Err(ContainerError::StaleIndex)
            }
        } else {
            Err(ContainerError::IdNotFound)
        }
    }

    /// Binds `data` to an identity and returns it. If a recyclable tombstone
    /// exists, the slot right after the live range is revived and its
    /// identity reused; otherwise a brand-new slot and identity equal to the
    /// old high-water mark are allocated.
    pub fn add(&mut self, data: T) -> (r: usize)
        requires
            old(self).wf(),
        ensures
            final(self).wf(),
            final(self).live_count() == old(self).live_count() + 1,
            final(self).is_live(r),
            final(self).value_of(r) == data,
            final(self).slot_of(r) == old(self).live_count(),
            final(self).values() == old(self).values().push(data),
            old(self).live_count() < old(self).id_count() ==> {
                &&& r == old(self).ids()[old(self).live_count()]
                &&& final(self).ids() == old(self).ids()
                &&& final(self).index_table() == old(self).index_table()
            },
            old(self).live_count() == old(self).id_count() ==> {
                &&& r as int == old(self).id_count()
                &&& final(self).ids() == old(self).ids().push(r)
                &&& final(self).index_table() == old(self).index_table().push(r)
            },
            old(self).live_count() == old(self).id_count() ==> forall|v: usize|
                old(self).is_live(v) ==> v < r,
            forall|v: usize| v != r ==> (#[trigger] final(self).is_live(v) <==> old(self).is_live(v)),
            forall|v: usize|
                v != r && old(self).is_live(v) ==> #[trigger] final(self).value_of(v) == old(
                    self,
                ).value_of(v),
            forall|v: usize| old(self).has_id(v) ==> #[trigger] final(self).has_id(v),
    {
        let index = self.data.len();
        if self.data.len() < self.id.len() {
            self.data.push(data);
        } else {
            self.data.push(data);
            self.id.push(index);
            self.data_index.push(index);
        }
        self.id[index]
    }

    /// Removes the value bound to the given identity: the victim slot is
    /// swapped with the last live slot, the index table is fixed up for both
    /// swapped identities, and the live range shrinks by one. The freed
    /// identity stays in the table as the tombstone next in line for
    /// recycling. Fails with `IdNotFound`, leaving the container unchanged,
    /// if the identity has no live slot.
    pub fn remove(&mut self, id: usize) -> (r: Result<(), ContainerError>)
        requires
            old(self).wf(),
        ensures
            final(self).wf(),
            r is Ok <==> old(self).is_live(id),
            !old(self).is_live(id) ==> r == Err::<(), ContainerError>(ContainerError::IdNotFound)
                && *final(self) == *old(self),
            r is Ok ==> {
                let s = old(self).slot_of(id);
                let last = old(self).live_count() - 1;
                &&& final(self).id_count() == old(self).id_count()
                &&& final(self).live_count() == old(self).live_count() - 1
                &&& final(self).ids() == old(self).ids().update(s, old(self).ids()[last]).update(
                    last,
                    id,
                )
                &&& final(self).values() == old(self).values().update(
                    s,
                    old(self).values()[last],
                ).drop_last()
                &&& final(self).ids()[last] == id
                &&& final(self).has_id(id)
                &&& !final(self).is_live(id)
            },
            r is Ok ==> forall|v: usize|
                v != id ==> (#[trigger] final(self).is_live(v) <==> old(self).is_live(v)),
            r is Ok ==> forall|v: usize|
                v != id && old(self).is_live(v) ==> #[trigger] final(self).value_of(v) == old(
                    self,
                ).value_of(v),
    {
        if id >= self.id.len() {
            return Err(ContainerError::IdNotFound);
        }
        let slot = self.data_index[id];
        if slot >= self.data.len() {
            return Err(ContainerError::IdNotFound);
        }
        let last_index = self.data.len() - 1;

        crate::vec_util::swap_elements(&mut self.data, slot, last_index);
        crate::vec_util::swap_elements(&mut self.id, slot, last_index);

        let data_index_a = self.id[slot];
        let data_index_b = self.id[last_index];

        crate::vec_util::swap_elements(&mut self.data_index, data_index_a, data_index_b);

        self.data.pop();

        proof {
            assert(final(self).values() =~= old(self).values().update(
                old(self).slot_of(id),
                old(self).values()[old(self).live_count() - 1],
            ).drop_last());
        }
        Ok(())
    }

    /// Finds the value bound to the given identity. Returns `None` both for
    /// an identity that was never issued and for a tombstone: this operation
    /// does not distinguish the two causes of absence.
    pub fn get(&self, id: usize) -> (r: Option<&T>)
        requires
            self.wf(),
        ensures
            match r {
                Some(v) => self.is_live(id) && *v == self.value_of(id),
                None => !self.is_live(id),
            },
    {
        if id < self.id.len() {
            let slot = self.data_index[id];
            if slot < self.data.len() {
                Some(&self.data[slot])
            } else {
                None
            }
        } else {
            None
        }
    }

    /// Law: the identities occupying live slots are pairwise distinct, so a
    /// sequence of insertions with no interleaved removal hands out pairwise
    /// distinct identities (each fresh allocation returns the high-water
    /// mark, which exceeds every identity issued before it).
    pub proof fn lemma_live_ids_distinct(&self)
        requires
            self.wf(),
        ensures
            forall|s1: int, s2: int|
                0 <= s1 < s2 < self.live_count() ==> self.ids()[s1] != self.ids()[s2],
    {
        assert forall|s1: int, s2: int|
            0 <= s1 < s2 < self.live_count() implies self.ids()[s1] != self.ids()[s2] by {
            assert(self.index_table()[self.ids()[s1] as int] == s1);
            assert(self.index_table()[self.ids()[s2] as int] == s2);
        }
    }
}

} // verus!

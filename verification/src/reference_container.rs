//! The grouped, sortable variant of the identity-stable container.

use vstd::prelude::*;

use crate::ContainerError;

verus! {

/// Identity-stable container with a grouping tag ("reference") per element.
///
/// It keeps the same three tables as the base container, plus a fourth,
/// `reference`, holding one grouping tag per live slot. All four move in
/// lock-step through every mutation; `sort` reorders the live range by
/// ascending tag while tombstones stay untouched and recyclable.
pub struct ReferenceContainer<T> {
    data_index: Vec<usize>,
    id: Vec<usize>,
    data: Vec<T>,
    reference: Vec<usize>,
}

impl<T> ReferenceContainer<T> {
    /// The identity table: the identity bound to each slot, live or tombstone.
    pub closed spec fn ids(&self) -> Seq<usize> {
        self.id@
    }

    /// The index table: the slot bound to each identity.
    pub closed spec fn index_table(&self) -> Seq<usize> {
        self.data_index@
    }

    /// The live values, in slot order.
    pub closed spec fn values(&self) -> Seq<T> {
        self.data@
    }

    /// The grouping tags of the live slots, in slot order.
    pub closed spec fn refs(&self) -> Seq<usize> {
        self.reference@
    }

    /// How many identities have ever been issued (the high-water mark).
    pub open spec fn id_count(&self) -> int {
        self.ids().len() as int
    }

    /// How many elements are currently live.
    pub open spec fn live_count(&self) -> int {
        self.values().len() as int
    }

    /// Whether `id` was ever issued (live or tombstone).
    pub open spec fn has_id(&self, id: usize) -> bool {
        (id as int) < self.id_count()
    }

    /// The slot currently bound to the issued identity `id`.
    pub open spec fn slot_of(&self, id: usize) -> int {
        self.index_table()[id as int] as int
    }

    /// Whether `id` is bound to a live value.
    pub open spec fn is_live(&self, id: usize) -> bool {
        self.has_id(id) && self.slot_of(id) < self.live_count()
    }

    /// The value bound to the live identity `id`.
    pub open spec fn value_of(&self, id: usize) -> T {
        self.values()[self.slot_of(id)]
    }

    /// The grouping tag of the live identity `id`.
    pub open spec fn ref_of(&self, id: usize) -> usize {
        self.refs()[self.slot_of(id)]
    }

    /// Well-formedness: the identity table holds a permutation of the slot
    /// numbers `0 .. id_count`, the index table is its inverse, the live
    /// range is a prefix of the table, and there is one tag per live slot.
    pub open spec fn wf(&self) -> bool {
        &&& self.index_table().len() == self.id_count()
        &&& self.live_count() <= self.id_count()
        &&& self.refs().len() == self.live_count()
        &&& forall|s: int|
            0 <= s < self.id_count() ==> (#[trigger] self.ids()[s]) < self.id_count()
        &&& forall|s: int|
            0 <= s < self.id_count() ==> self.index_table()[#[trigger] self.ids()[s] as int] == s
        &&& forall|v: int|
            0 <= v < self.id_count() ==> (#[trigger] self.index_table()[v]) < self.id_count()
        &&& forall|v: int|
            0 <= v < self.id_count() ==> self.ids()[#[trigger] self.index_table()[v] as int] == v
    }

    /// Creates an empty container.
    pub fn new() -> (r: ReferenceContainer<T>)
        ensures
            r.wf(),
            r.id_count() == 0,
            r.live_count() == 0,
    {
        ReferenceContainer {
            data_index: Vec::new(),
            id: Vec::new(),
            data: Vec::new(),
            reference: Vec::new(),
        }
    }

    /// Returns the number of elements currently stored in the container.
    pub fn size(&self) -> (r: usize)
        ensures
            r as int == self.live_count(),
    {
        self.data.len()
    }

    /// Returns `true` if the container holds no live elements.
    pub fn empty(&self) -> (r: bool)
        ensures
            r <==> self.live_count() == 0,
    {
        self.data.is_empty()
    }

    /// Clears all elements, tags, identities and index entries, discarding
    /// the tombstone pool: identity allocation restarts from zero.
    pub fn clear(&mut self)
        ensures
            final(self).wf(),
            final(self).id_count() == 0,
            final(self).live_count() == 0,
    {
        self.data.clear();
        self.id.clear();
        self.data_index.clear();
        self.reference.clear();
    }

    /// Retrieves the identity bound to the given slot, live or tombstone.
    /// Fails with `IndexOutOfBounds` if the slot exceeds the identity table.
    pub fn get_id_from_index(&self, index: usize) -> (r: Result<usize, ContainerError>)
        ensures
            match r {
                Ok(i) => (index as int) < self.id_count() && i == self.ids()[index as int],
                Err(e) => (index as int) >= self.id_count() && e == ContainerError::IndexOutOfBounds,
            },
    {
        if index < self.id.len() {
            Ok(self.id[index])
        } else {
            Err(ContainerError::IndexOutOfBounds)
        }
    }

    /// Finds the value bound to the given identity. Returns `None` both for
    /// an identity that was never issued and for a tombstone: this operation
    /// does not distinguish the two causes of absence.
    pub fn get(&self, id: usize) -> (r: Option<&T>)
        requires
            self.wf(),
        ensures
            match r {
                Some(v) => self.is_live(id) && *v == self.value_of(id),
                None => !self.is_live(id),
            },
    {
        if id < self.id.len() {
            let slot = self.data_index[id];
            if slot < self.data.len() {
                Some(&self.data[slot])
            } else {
                None
            }
        } else {
            None
        }
    }

    /// Replaces the value bound to the given identity, in place: no slot
    /// moves and no tag changes. Fails with `IdNotFound` if the identity was
    /// never issued, and with `StaleIndex` if it is a tombstone left behind
    /// by a removal; a failing call leaves the container unchanged.
    pub fn update(&mut self, id: usize, new_data: T) -> (r: Result<(), ContainerError>)
        requires
            old(self).wf(),
        ensures
            final(self).wf(),
            r is Ok <==> old(self).is_live(id),
            r == Err::<(), ContainerError>(ContainerError::IdNotFound) <==> !old(self).has_id(id),
            r == Err::<(), ContainerError>(ContainerError::StaleIndex) <==> (old(self).has_id(id)
                && !old(self).is_live(id)),
            r is Err ==> *final(self) == *old(self),
            r is Ok ==> {
                &&& final(self).ids() == old(self).ids()
                &&& final(self).index_table() == old(self).index_table()
                &&& final(self).refs() == old(self).refs()
                &&& final(self).values() == old(self).values().update(
                    old(self).slot_of(id),
                    new_data,
                )
            },
            r is Ok ==> final(self).is_live(id) && final(self).value_of(id) == new_data,
            r is Ok ==> forall|v: usize|
                v != id ==> (#[trigger] final(self).is_live(v) <==> old(self).is_live(v)),
            r is Ok ==> forall|v: usize|
                v != id && old(self).is_live(v) ==> #[trigger] final(self).value_of(v) == old(
                    self,
                ).value_of(v),
            r is Ok ==> forall|v: usize|
                old(self).is_live(v) ==> #[trigger] final(self).ref_of(v) == old(self).ref_of(v),
    {
        if id < self.id.len() {
            let slot = self.data_index[id];
            if slot < self.data.len() {
                self.data.set(slot, new_data);
                Ok(())
            } else {
                Err(ContainerError::StaleIndex)
            }
        } else {
            Err(ContainerError::IdNotFound)
        }
    }

    /// Binds `data` to an identity with the grouping tag `reference` and
    /// returns the identity. If a recyclable tombstone exists, the slot
    /// right after the live range is revived and its identity reused;
    /// otherwise a brand-new slot and identity equal to the old high-water
    /// mark are allocated. Either way the tag is appended for the new slot.
    pub fn add(&mut self, data: T, reference: usize) -> (r: usize)
        requires
            old(self).wf(),
        ensures
            final(self).wf(),
            final(self).live_count() == old(self).live_count() + 1,
            final(self).is_live(r),
            final(self).value_of(r) == data,
            final(self).ref_of(r) == reference,
            final(self).slot_of(r) == old(self).live_count(),
            final(self).values() == old(self).values().push(data),
            final(self).refs() == old(self).refs().push(reference),
            old(self).live_count() < old(self).id_count() ==> {
                &&& r == old(self).ids()[old(self).live_count()]
                &&& final(self).ids() == old(self).ids()
                &&& final(self).index_table() == old(self).index_table()
            },
            old(self).live_count() == old(self).id_count() ==> {
                &&& r as int == old(self).id_count()
                &&& final(self).ids() == old(self).ids().push(r)
                &&& final(self).index_table() == old(self).index_table().push(r)
            },
            old(self).live_count() == old(self).id_count() ==> forall|v: usize|
                old(self).is_live(v) ==> v < r,
            forall|v: usize| v != r ==> (#[trigger] final(self).is_live(v) <==> old(self).is_live(v)),
            forall|v: usize|
                v != r && old(self).is_live(v) ==> #[trigger] final(self).value_of(v) == old(
                    self,
                ).value_of(v) && final(self).ref_of(v) == old(self).ref_of(v),
            forall|v: usize| old(self).has_id(v) ==> #[trigger] final(self).has_id(v),
    {
        let index = self.data.len();
        if self.data.len() < self.id.len() {
            self.data.push(data);
            self.reference.push(reference);
        } else {
            self.data.push(data);
            self.id.push(index);
            self.data_index.push(index);
            self.reference.push(reference);
        }
        self.id[index]
    }

    /// Removes the value bound to the given identity: the victim slot is
    /// swapped with the last live slot (tags included), the index table is
    /// fixed up for both swapped identities, and the live range shrinks by
    /// one. The freed identity stays in the table as the tombstone next in
    /// line for recycling. Fails with `IdNotFound`, leaving the container
    /// unchanged, if the identity has no live slot.
    pub fn remove(&mut self, id: usize) -> (r: Result<(), ContainerError>)
        requires
            old(self).wf(),
        ensures
            final(self).wf(),
            r is Ok <==> old(self).is_live(id),
            !old(self).is_live(id) ==> r == Err::<(), ContainerError>(ContainerError::IdNotFound)
                && *final(self) == *old(self),
            r is Ok ==> {
                let s = old(self).slot_of(id);
                let last = old(self).live_count() - 1;
                &&& final(self).id_count() == old(self).id_count()
                &&& final(self).live_count() == old(self).live_count() - 1
                &&& final(self).ids() == old(self).ids().update(s, old(self).ids()[last]).update(
                    last,
                    id,
                )
                &&& final(self).values() == old(self).values().update(
                    s,
                    old(self).values()[last],
                ).drop_last()
                &&& final(self).refs() == old(self).refs().update(
                    s,
                    old(self).refs()[last],
                ).drop_last()
                &&& final(self).ids()[last] == id
                &&& final(self).has_id(id)
                &&& !final(self).is_live(id)
            },
            r is Ok ==> forall|v: usize|
                v != id ==> (#[trigger] final(self).is_live(v) <==> old(self).is_live(v)),
            r is Ok ==> forall|v: usize|
                v != id && old(self).is_live(v) ==> #[trigger] final(self).value_of(v) == old(
                    self,
                ).value_of(v) && final(self).ref_of(v) == old(self).ref_of(v),
    {
        if id >= self.id.len() {
            return Err(ContainerError::IdNotFound);
        }
        let slot = self.data_index[id];
        if slot >= self.data.len() {
            return Err(ContainerError::IdNotFound);
        }
        let last_index = self.data.len() - 1;

        self.swap(slot, last_index);

        self.data.pop();
        self.reference.pop();

        proof {
            assert(final(self).values() =~= old(self).values().update(
                old(self).slot_of(id),
                old(self).values()[old(self).live_count() - 1],
            ).drop_last());
            assert(final(self).refs() =~= old(self).refs().update(
                old(self).slot_of(id),
                old(self).refs()[old(self).live_count() - 1],
            ).drop_last());
        }
        Ok(())
    }

    /// The identities of the first `n` live slots whose tag equals `tag`,
    /// in slot order.
    pub open spec fn ids_with_ref_upto(&self, tag: usize, n: int) -> Seq<usize>
        decreases n,
    {
        if n <= 0 {
            Seq::empty()
        } else if self.refs()[n - 1] == tag {
            self.ids_with_ref_upto(tag, n - 1).push(self.ids()[n - 1])
        } else {
            self.ids_with_ref_upto(tag, n - 1)
        }
    }

    /// The identities of all live slots whose tag equals `tag`, in slot
    /// order.
    pub open spec fn ids_with_ref(&self, tag: usize) -> Seq<usize> {
        self.ids_with_ref_upto(tag, self.live_count())
    }

    /// Collects the identities of the live elements whose tag equals
    /// `reference`, in current slot order (which changes across `sort`).
    /// Returns `None` exactly when no live element carries the tag.
    pub fn get_ids_from_reference(&self, reference: usize) -> (r: Option<Vec<usize>>)
        requires
            self.wf(),
        ensures
            match r {
                Some(v) => v@ == self.ids_with_ref(reference) && v@.len() > 0,
                None => self.ids_with_ref(reference).len() == 0,
            },
    {
        let mut ids: Vec<usize> = Vec::new();
        let mut i: usize = 0;
        while i < self.reference.len()
            invariant
                self.wf(),
                i <= self.reference.len(),
                ids@ == self.ids_with_ref_upto(reference, i as int),
            decreases self.reference.len() - i,
        {
            if self.reference[i] == reference {
                ids.push(self.id[i]);
            }
            i += 1;
        }
        if ids.len() == 0 {
            None
        } else {
            Some(ids)
        }
    }

    /// Law: `ids_with_ref(tag)` holds exactly the live identities whose tag
    /// equals `tag`.
    pub proof fn lemma_ids_with_ref_exact(&self, tag: usize)
        requires
            self.wf(),
        ensures
            forall|v: usize|
                #[trigger] self.ids_with_ref(tag).contains(v) <==> (self.is_live(v) && self.ref_of(
                    v,
                ) == tag),
    {
        self.lemma_ids_with_ref_upto_exact(tag, self.live_count());
        assert forall|v: usize|
            #[trigger] self.ids_with_ref(tag).contains(v) implies (self.is_live(v) && self.ref_of(v)
            == tag) by {
            let s = choose|s: int|
                0 <= s < self.live_count() && self.ids()[s] == v && self.refs()[s] == tag;
            assert(self.index_table()[self.ids()[s] as int] == s);
        }
        assert forall|v: usize| self.is_live(v) && self.ref_of(v) == tag implies #[trigger] self
            .ids_with_ref(tag)
            .contains(v) by {
            let s = self.slot_of(v);
            assert(self.ids()[self.index_table()[v as int] as int] == v);
            assert(0 <= s < self.live_count() && self.ids()[s] == v && self.refs()[s] == tag);
        }
    }

    /// The elements of `ids_with_ref_upto(tag, n)` are exactly the
    /// identities of the slots below `n` whose tag equals `tag`.
    proof fn lemma_ids_with_ref_upto_exact(&self, tag: usize, n: int)
        requires
            self.wf(),
            0 <= n <= self.live_count(),
        ensures
            forall|v: usize|
                #[trigger] self.ids_with_ref_upto(tag, n).contains(v) <==> exists|s: int|
                    0 <= s < n && self.ids()[s] == v && self.refs()[s] == tag,
        decreases n,
    {
        if n > 0 {
            self.lemma_ids_with_ref_upto_exact(tag, n - 1);
            let prev = self.ids_with_ref_upto(tag, n - 1);
            let cur = self.ids_with_ref_upto(tag, n);
            assert forall|v: usize| #[trigger] cur.contains(v) implies exists|s: int|
                0 <= s < n && self.ids()[s] == v && self.refs()[s] == tag by {
                let k = choose|k: int| 0 <= k < cur.len() && cur[k] == v;
                if k < prev.len() {
                    assert(prev[k] == v);
                    assert(prev.contains(v));
                } else {
                    assert(self.refs()[n - 1] == tag && self.ids()[n - 1] == v);
                }
            }
            assert forall|v: usize| (exists|s: int|
                0 <= s < n && self.ids()[s] == v && self.refs()[s] == tag) implies #[trigger] cur
                .contains(v) by {
                let s = choose|s: int| 0 <= s < n && self.ids()[s] == v && self.refs()[s] == tag;
                if s < n - 1 {
                    assert(prev.contains(v));
                    let k = choose|k: int| 0 <= k < prev.len() && prev[k] == v;
                    assert(cur[k] == v);
                } else {
                    assert(cur.last() == v);
                }
            }
        }
    }

    /// Law: `ids_with_ref(tag)` lists its identities in ascending slot
    /// order.
    pub proof fn lemma_ids_with_ref_ordered(&self, tag: usize)
        requires
            self.wf(),
        ensures
            forall|k: int, l: int|
                0 <= k < l < self.ids_with_ref(tag).len() ==> self.slot_of(
                    self.ids_with_ref(tag)[k],
                ) < self.slot_of(self.ids_with_ref(tag)[l]),
    {
        self.lemma_ids_with_ref_upto_ordered(tag, self.live_count());
    }

    /// The identities collected below slot `n` sit at ascending slots below
    /// `n`.
    proof fn lemma_ids_with_ref_upto_ordered(&self, tag: usize, n: int)
        requires
            self.wf(),
            0 <= n <= self.live_count(),
        ensures
            forall|k: int|
                0 <= k < self.ids_with_ref_upto(tag, n).len() ==> 0 <= self.slot_of(
                    #[trigger] self.ids_with_ref_upto(tag, n)[k],
                ) < n,
            forall|k: int, l: int|
                0 <= k < l < self.ids_with_ref_upto(tag, n).len() ==> self.slot_of(
                    self.ids_with_ref_upto(tag, n)[k],
                ) < self.slot_of(self.ids_with_ref_upto(tag, n)[l]),
        decreases n,
    {
        if n > 0 {
            self.lemma_ids_with_ref_upto_ordered(tag, n - 1);
            let prev = self.ids_with_ref_upto(tag, n - 1);
            let cur = self.ids_with_ref_upto(tag, n);
            if self.refs()[n - 1] == tag {
                assert(self.index_table()[self.ids()[n - 1] as int] == n - 1);
                assert(forall|k: int| 0 <= k < prev.len() ==> cur[k] == prev[k]);
                assert(cur.last() == self.ids()[n - 1]);
            }
        }
    }

    /// Law: the identities occupying live slots are pairwise distinct, so a
    /// sequence of insertions with no interleaved removal hands out pairwise
    /// distinct identities (each fresh allocation returns the high-water
    /// mark, which exceeds every identity issued before it).
    pub proof fn lemma_live_ids_distinct(&self)
        requires
            self.wf(),
        ensures
            forall|s1: int, s2: int|
                0 <= s1 < s2 < self.live_count() ==> self.ids()[s1] != self.ids()[s2],
    {
        assert forall|s1: int, s2: int|
            0 <= s1 < s2 < self.live_count() implies self.ids()[s1] != self.ids()[s2] by {
            assert(self.index_table()[self.ids()[s1] as int] == s1);
            assert(self.index_table()[self.ids()[s2] as int] == s2);
        }
    }

    /// What a stable reordering of the live range is: `p[k]` names the old
    /// slot of the element now at slot `k`. The slots are permuted, each
    /// element keeps its identity, value and tag, and elements with equal
    /// tags keep their old relative order.
    pub open spec fn stable_reorder(
        pre: ReferenceContainer<T>,
        post: ReferenceContainer<T>,
        p: Seq<int>,
    ) -> bool {
        &&& p.len() == pre.live_count()
        &&& forall|k: int| 0 <= k < p.len() ==> 0 <= #[trigger] p[k] < p.len()
        &&& forall|k: int, l: int| 0 <= k < l < p.len() ==> p[k] != p[l]
        &&& forall|k: int|
            0 <= k < p.len() ==> #[trigger] post.ids()[k] == pre.ids()[p[k]] && post.values()[k]
                == pre.values()[p[k]] && post.refs()[k] == pre.refs()[p[k]]
        &&& forall|k: int, l: int|
            0 <= k < l < p.len() && post.refs()[k] == post.refs()[l] ==> p[k] < p[l]
    }

    /// Stably reorders the live range by ascending tag, updating the index
    /// table so every live identity still resolves to the slot holding its
    /// value. Tombstone entries beyond the live range are untouched and
    /// remain recyclable; no identity's bound value or tag changes, only its
    /// slot. Elements with equal tags keep their relative slot order.
    #[verifier::loop_isolation(false)]
    pub fn sort(&mut self)
        requires
            old(self).wf(),
        ensures
            final(self).wf(),
            final(self).id_count() == old(self).id_count(),
            final(self).live_count() == old(self).live_count(),
            forall|s: int|
                old(self).live_count() <= s < old(self).id_count()
                    ==> final(self).ids()[s] == old(self).ids()[s],
            forall|k: int, l: int|
                0 <= k < l < final(self).live_count()
                    ==> final(self).refs()[k] <= final(self).refs()[l],
            forall|v: usize| (#[trigger] final(self).is_live(v)) <==> old(self).is_live(v),
            forall|v: usize|
                old(self).is_live(v)
                    ==> #[trigger] final(self).value_of(v) == old(self).value_of(v)
                    && final(self).ref_of(v) == old(self).ref_of(v),
            exists|p: Seq<int>| Self::stable_reorder(*old(self), *final(self), p),
    {
        let n = self.data.len();
        let ghost pre = *old(self);
        let ghost mut perm: Seq<int> = Seq::new(n as nat, |k: int| k);
        if n > 1 {
            let mut i: usize = 1;
            while i < n
                invariant
                    1 <= i <= n,
                    self.wf(),
                    self.live_count() == n as int,
                    self.id_count() == pre.id_count(),
                    forall|s: int|
                        n <= s < self.id_count() ==> (#[trigger] self.ids()[s]) == pre.ids()[s],
                    perm.len() == n as int,
                    forall|k: int| 0 <= k < n ==> 0 <= #[trigger] perm[k] < n,
                    forall|k: int, l: int| 0 <= k < l < n ==> perm[k] != perm[l],
                    forall|k: int|
                        0 <= k < n ==> (#[trigger] self.ids()[k]) == pre.ids()[perm[k]]
                            && self.values()[k] == pre.values()[perm[k]] && self.refs()[k]
                            == pre.refs()[perm[k]],
                    forall|k: int, l: int|
                        0 <= k < l < n && self.refs()[k] == self.refs()[l] ==> perm[k] < perm[l],
                    forall|v: usize| (#[trigger] self.is_live(v)) <==> pre.is_live(v),
                    forall|v: usize|
                        pre.is_live(v) ==> (#[trigger] self.value_of(v)) == pre.value_of(v)
                            && self.ref_of(v) == pre.ref_of(v),
                    forall|k: int, l: int|
                        0 <= k < l < i ==> self.refs()[k] <= self.refs()[l],
                decreases n - i,
            {
                let mut j: usize = i;
                while j > 0 && self.reference[j - 1] > self.reference[j]
                    invariant
                        j <= i,
                        self.wf(),
                        self.live_count() == n as int,
                        self.id_count() == pre.id_count(),
                        forall|s: int|
                            n <= s < self.id_count() ==> (#[trigger] self.ids()[s]) == pre.ids()[s],
                        perm.len() == n as int,
                        forall|k: int| 0 <= k < n ==> 0 <= #[trigger] perm[k] < n,
                        forall|k: int, l: int| 0 <= k < l < n ==> perm[k] != perm[l],
                        forall|k: int|
                            0 <= k < n ==> (#[trigger] self.ids()[k]) == pre.ids()[perm[k]]
                                && self.values()[k] == pre.values()[perm[k]] && self.refs()[k]
                                == pre.refs()[perm[k]],
                        forall|k: int, l: int|
                            0 <= k < l < n && self.refs()[k] == self.refs()[l] ==> perm[k] < perm[l],
                        forall|v: usize| (#[trigger] self.is_live(v)) <==> pre.is_live(v),
                        forall|v: usize|
                            pre.is_live(v) ==> (#[trigger] self.value_of(v)) == pre.value_of(v)
                                && self.ref_of(v) == pre.ref_of(v),
                        forall|k: int, l: int|
                            0 <= k < l < j ==> self.refs()[k] <= self.refs()[l],
                        forall|k: int, l: int|
                            j <= k < l <= i ==> self.refs()[k] <= self.refs()[l],
                        forall|k: int, l: int|
                            0 <= k < j && j < l <= i ==> self.refs()[k] <= self.refs()[l],
                    decreases j,
                {
                    self.swap(j - 1, j);
                    proof {
                        perm = perm.update(j - 1, perm[j as int]).update(j as int, perm[j - 1]);
                    }
                    j -= 1;
                }
                i += 1;
            }
        }
        proof {
            assert(Self::stable_reorder(pre, *self, perm));
        }
    }

    /// Swaps the live slots `index_a` and `index_b`: the values, identities
    /// and tags move together, and the index table is updated so both
    /// identities point at their new slots.
    fn swap(&mut self, index_a: usize, index_b: usize)
        requires
            old(self).wf(),
            (index_a as int) < old(self).live_count(),
            (index_b as int) < old(self).live_count(),
        ensures
            final(self).wf(),
            final(self).id_count() == old(self).id_count(),
            final(self).live_count() == old(self).live_count(),
            final(self).ids() == old(self).ids().update(
                index_a as int,
                old(self).ids()[index_b as int],
            ).update(index_b as int, old(self).ids()[index_a as int]),
            final(self).values() == old(self).values().update(
                index_a as int,
                old(self).values()[index_b as int],
            ).update(index_b as int, old(self).values()[index_a as int]),
            final(self).refs() == old(self).refs().update(
                index_a as int,
                old(self).refs()[index_b as int],
            ).update(index_b as int, old(self).refs()[index_a as int]),
            forall|v: usize| (#[trigger] final(self).is_live(v)) <==> old(self).is_live(v),
            forall|v: usize|
                old(self).is_live(v) ==> #[trigger] final(self).value_of(v) == old(self).value_of(
                    v,
                ) && final(self).ref_of(v) == old(self).ref_of(v),
    {
        crate::vec_util::swap_elements(&mut self.data, index_a, index_b);
        crate::vec_util::swap_elements(&mut self.id, index_a, index_b);
        crate::vec_util::swap_elements(&mut self.reference, index_a, index_b);

        let data_index_a = self.id[index_a];
        let data_index_b = self.id[index_b];

        crate::vec_util::swap_elements(&mut self.data_index, data_index_a, data_index_b);
    }
}

impl<T: Clone> Clone for ReferenceContainer<T> {
    /// Clones the container. The identity, index and tag tables are copied
    /// exactly; each stored value is produced by `T::clone`, so its relation
    /// to the original value is whatever that implementation promises.
    fn clone(&self) -> (r: Self)
        ensures
            r.ids() == self.ids(),
            r.index_table() == self.index_table(),
            r.refs() == self.refs(),
            r.values().len() == self.values().len(),
            forall|s: int|
                0 <= s < self.values().len() ==> cloned::<T>(
                    self.values()[s],
                    #[trigger] r.values()[s],
                ),
            self.wf() ==> r.wf(),
    {
        let r = ReferenceContainer {
            data_index: self.data_index.clone(),
            id: self.id.clone(),
            data: self.data.clone(),
            reference: self.reference.clone(),
        };
        proof {
            assert(r.ids() =~= self.ids());
            assert(r.index_table() =~= self.index_table());
            assert(r.refs() =~= self.refs());
        }
        r
    }
}

impl<T> Default for ReferenceContainer<T> {
    /// An empty container.
    fn default() -> (r: Self)
        ensures
            r.wf(),
            r.id_count() == 0,
            r.live_count() == 0,
    {
        ReferenceContainer::new()
    }
}

} // verus!

use vstd::prelude::*;
use crate::objectid::ObjectId;

verus! {

/// A handle on an entry of a [`Coremap<V>`], obtained by checking the entry
/// out. While a handle is outstanding the entry cannot be removed by
/// [`Coremap::true_remove_if`] with a predicate that asks for no holders;
/// giving the handle back to [`Coremap::release`] ends it.
///
/// A handle records the entry's identifier and the kind of value, nothing
/// more: a handle on a table cannot be given back to a map of keyspaces, but
/// a map of the same kind with an entry of the same name takes it and lowers
/// that entry's count, which may let the entry be removed while a handle on
/// it is still out. Give each handle back to the map that gave it out. A
/// handle dropped without being given back keeps its entry from being
/// removed by such a predicate for good; only an unconditional
/// [`Coremap::remove`] takes the entry out then.
#[derive(Debug)]
pub struct Handle<V> {
    key: ObjectId,
    kind: core::marker::PhantomData<V>,
}

impl<V> View for Handle<V> {
    type V = Seq<u8>;

    closed spec fn view(&self) -> Seq<u8> {
        self.key@
    }
}

impl<V> Handle<V> {
    /// The identifier of the entry this handle was taken on.
    pub fn key(&self) -> (r: ObjectId)
        ensures
            r@ == self@,
    {
        self.key
    }
}

/// One entry: its identifier, its value, and how many handles on it are out.
struct Slot<V> {
    key: ObjectId,
    value: V,
    holders: usize,
}

/// A map from identifiers to values in which each entry also counts the
/// handles that callers hold on it. Identifiers are unique.
pub struct Coremap<V> {
    slots: Vec<Slot<V>>,
}

impl<V> View for Coremap<V> {
    type V = Map<Seq<u8>, V>;

    /// The values, by identifier.
    closed spec fn view(&self) -> Map<Seq<u8>, V> {
        Map::new(|k: Seq<u8>| self.has_key(k), |k: Seq<u8>| self.slots@[self.index_of(k)].value)
    }
}

impl<V> Coremap<V> {
    spec fn at(&self, k: Seq<u8>, i: int) -> bool {
        0 <= i < self.slots@.len() && self.slots@[i].key@ == k
    }

    spec fn has_key(&self, k: Seq<u8>) -> bool {
        exists|i: int| self.at(k, i)
    }

    spec fn index_of(&self, k: Seq<u8>) -> int {
        choose|i: int| self.at(k, i)
    }

    /// The number of outstanding handles, by identifier. Its keys are those
    /// of the map itself.
    pub closed spec fn holders(&self) -> Map<Seq<u8>, nat> {
        Map::new(
            |k: Seq<u8>| self.has_key(k),
            |k: Seq<u8>| self.slots@[self.index_of(k)].holders as nat,
        )
    }

    /// No identifier occurs twice.
    pub closed spec fn wf(&self) -> bool {
        forall|i: int, j: int|
            0 <= i < self.slots@.len() && 0 <= j < self.slots@.len() && #[trigger] self.slots@[i].key@
                == #[trigger] self.slots@[j].key@ ==> i == j
    }

    proof fn lemma_slot(&self, i: int)
        requires
            self.wf(),
            0 <= i < self.slots@.len(),
        ensures
            self@.contains_key(self.slots@[i].key@),
            self@[self.slots@[i].key@] == self.slots@[i].value,
            self.holders()[self.slots@[i].key@] == self.slots@[i].holders as nat,
    {
        let k = self.slots@[i].key@;
        assert(self.at(k, i));
        let j = self.index_of(k);
        assert(self.at(k, j));
    }

    /// Every identifier of the map sits in some slot.
    proof fn lemma_keys(&self)
        requires
            self.wf(),
        ensures
            forall|i: int|
                0 <= i < self.slots@.len() ==> {
                    let k = #[trigger] self.slots@[i].key@;
                    &&& self@.contains_key(k)
                    &&& self@[k] == self.slots@[i].value
                    &&& self.holders()[k] == self.slots@[i].holders as nat
                },
            forall|k: Seq<u8>|
                #[trigger] self@.contains_key(k) ==> exists|i: int|
                    0 <= i < self.slots@.len() && self.slots@[i].key@ == k,
            self.holders().dom() == self@.dom(),
    {
        assert forall|i: int| 0 <= i < self.slots@.len() implies {
            let k = #[trigger] self.slots@[i].key@;
            &&& self@.contains_key(k)
            &&& self@[k] == self.slots@[i].value
            &&& self.holders()[k] == self.slots@[i].holders as nat
        } by {
            self.lemma_slot(i);
        }
        assert forall|k: Seq<u8>| #[trigger] self@.contains_key(k) implies exists|i: int|
            0 <= i < self.slots@.len() && self.slots@[i].key@ == k by {
            assert(self.has_key(k));
            let i = choose|i: int| self.at(k, i);
            assert(self.at(k, i));
        }
        assert(self.holders().dom() =~= self@.dom());
    }

    /// Counts are kept for exactly the entries of the map, and each fits in a
    /// machine word.
    pub proof fn lemma_holders(&self)
        requires
            self.wf(),
        ensures
            self.holders().dom() == self@.dom(),
            forall|k: Seq<u8>| #[trigger] self.holders().contains_key(k) ==> self.holders()[k] <= usize::MAX,
    {
        self.lemma_keys();
        assert forall|k: Seq<u8>| #[trigger] self.holders().contains_key(k) implies self.holders()[k] <= usize::MAX by {
            let i = choose|i: int| 0 <= i < self.slots@.len() && self.slots@[i].key@ == k;
        }
    }

    /// An empty map.
    pub fn new() -> (r: Coremap<V>)
        ensures
            r.wf(),
            r@ == Map::<Seq<u8>, V>::empty(),
            r.holders() == Map::<Seq<u8>, nat>::empty(),
    {
        let r = Coremap { slots: Vec::new() };
        assert(r@ =~= Map::<Seq<u8>, V>::empty());
        assert(r.holders() =~= Map::<Seq<u8>, nat>::empty());
        r
    }

    /// The slot holding `key`, if any.
    fn find(&self, key: &ObjectId) -> (r: Option<usize>)
        requires
            self.wf(),
        ensures
            match r {
                Some(i) => i < self.slots@.len() && self.slots@[i as int].key@ == key@,
                None => !self@.contains_key(key@),
            },
    {
        let mut i: usize = 0;
        while i < self.slots.len()
            invariant
                i <= self.slots@.len(),
                forall|j: int| 0 <= j < i ==> self.slots@[j].key@ != key@,
            decreases self.slots@.len() - i,
        {
            if self.slots[i].key.same_as(key) {
                return Some(i);
            }
            i = i + 1;
        }
        proof {
            self.lemma_keys();
        }
        None
    }

    /// Whether an entry for `key` exists.
    pub fn contains_key(&self, key: &ObjectId) -> (r: bool)
        requires
            self.wf(),
        ensures
            r == self@.contains_key(key@),
    {
        match self.find(key) {
            Some(i) => {
                proof {
                    self.lemma_slot(i as int);
                }
                true
            },
            None => false,
        }
    }

    /// The number of entries.
    pub fn len(&self) -> (r: usize)
        requires
            self.wf(),
        ensures
            r == self@.len(),
    {
        proof {
            self.lemma_len();
        }
        self.slots.len()
    }

    proof fn lemma_len(&self)
        requires
            self.wf(),
        ensures
            self@.dom().finite(),
            self@.len() == self.slots@.len(),
    {
        let keys = self.slots@.map_values(|s: Slot<V>| s.key@);
        assert forall|i: int, j: int| 0 <= i < j < keys.len() implies keys[i] != keys[j] by {
            assert(self.slots@[i].key@ == keys[i]);
            assert(self.slots@[j].key@ == keys[j]);
        }
        self.lemma_keys();
        assert forall|k: Seq<u8>| self@.dom().contains(k) <==> keys.to_set().contains(k) by {
            if self@.dom().contains(k) {
                let i = choose|i: int| 0 <= i < self.slots@.len() && self.slots@[i].key@ == k;
                assert(keys[i] == k);
            }
            if keys.to_set().contains(k) {
                let i = choose|i: int| 0 <= i < keys.len() && keys[i] == k;
                assert(self.slots@[i].key@ == k);
            }
        }
        assert(self@.dom() =~= keys.to_set());
        keys.unique_seq_to_set();
    }

    /// `b` is `a` with the slot at `i` changed in its value or its count.
    spec fn slot_changed(a: Self, b: Self, i: int) -> bool {
        &&& 0 <= i < a.slots@.len()
        &&& b.slots@.len() == a.slots@.len()
        &&& b.slots@[i].key == a.slots@[i].key
        &&& forall|j: int| 0 <= j < a.slots@.len() && j != i ==> b.slots@[j] == a.slots@[j]
    }

    proof fn lemma_slot_changed(a: Self, b: Self, i: int)
        requires
            a.wf(),
            Self::slot_changed(a, b, i),
        ensures
            b.wf(),
            b@ == a@.insert(a.slots@[i].key@, b.slots@[i].value),
            b.holders() == a.holders().insert(a.slots@[i].key@, b.slots@[i].holders as nat),
    {
        let k = a.slots@[i].key@;
        assert forall|x: int, y: int|
            0 <= x < b.slots@.len() && 0 <= y < b.slots@.len() && #[trigger] b.slots@[x].key@
                == #[trigger] b.slots@[y].key@ implies x == y by {
            assert(b.slots@[x].key@ == a.slots@[x].key@);
            assert(b.slots@[y].key@ == a.slots@[y].key@);
        }
        a.lemma_keys();
        b.lemma_keys();
        assert forall|q: Seq<u8>| #[trigger] b@.contains_key(q) <==> a@.insert(k, b.slots@[i].value).contains_key(q) by {
            if b@.contains_key(q) {
                let j = choose|j: int| 0 <= j < b.slots@.len() && b.slots@[j].key@ == q;
                assert(a.slots@[j].key@ == q);
            }
            if a@.contains_key(q) {
                let j = choose|j: int| 0 <= j < a.slots@.len() && a.slots@[j].key@ == q;
                assert(b.slots@[j].key@ == q);
            }
            if q == k {
                assert(b.slots@[i].key@ == q);
            }
        }
        assert forall|q: Seq<u8>| #[trigger] b@.contains_key(q) && q != k implies b@[q] == a@[q]
            && b.holders()[q] == a.holders()[q] by {
            let j = choose|j: int| 0 <= j < b.slots@.len() && b.slots@[j].key@ == q;
            assert(b.slots@[j] == a.slots@[j]);
        }
        assert(b@ =~= a@.insert(k, b.slots@[i].value));
        assert(b.holders() =~= a.holders().insert(k, b.slots@[i].holders as nat));
    }

    /// Inserts `value` under `key` only if no entry for `key` exists; never
    /// overwrites. Returns whether the insertion happened. A new entry has no
    /// outstanding handles.
    pub fn true_if_insert(&mut self, key: ObjectId, value: V) -> (r: bool)
        requires
            old(self).wf(),
        ensures
            final(self).wf(),
            r == !old(self)@.contains_key(key@),
            r ==> final(self)@ == old(self)@.insert(key@, value),
            r ==> final(self).holders() == old(self).holders().insert(key@, 0),
            !r ==> final(self)@ == old(self)@,
            !r ==> final(self).holders() == old(self).holders(),
    {
        match self.find(&key) {
            Some(i) => {
                proof {
                    self.lemma_slot(i as int);
                }
                false
            },
            None => {
                let ghost a = *self;
                proof {
                    a.lemma_keys();
                }
                self.slots.push(Slot { key, value, holders: 0 });
                let ghost n = a.slots@.len() as int;
                proof {
                    assert forall|x: int, y: int|
                        0 <= x < self.slots@.len() && 0 <= y < self.slots@.len() && #[trigger] self.slots@[x].key@
                            == #[trigger] self.slots@[y].key@ implies x == y by {
                        if x == n && y < n {
                            assert(a@.contains_key(a.slots@[y].key@));
                        }
                        if y == n && x < n {
                            assert(a@.contains_key(a.slots@[x].key@));
                        }
                    }
                    self.lemma_keys();
                    self.lemma_slot(n);
                    assert forall|q: Seq<u8>| #[trigger] self@.contains_key(q) <==> a@.insert(key@, value).contains_key(q) by {
                        if self@.contains_key(q) {
                            let j = choose|j: int| 0 <= j < self.slots@.len() && self.slots@[j].key@ == q;
                            if j < n {
                                assert(a.slots@[j].key@ == q);
                            }
                        }
                        if a@.contains_key(q) {
                            let j = choose|j: int| 0 <= j < a.slots@.len() && a.slots@[j].key@ == q;
                            assert(self.slots@[j].key@ == q);
                        }
                    }
                    assert forall|q: Seq<u8>| #[trigger] self@.contains_key(q) && q != key@ implies self@[q] == a@[q]
                        && self.holders()[q] == a.holders()[q] by {
                        let j = choose|j: int| 0 <= j < self.slots@.len() && self.slots@[j].key@ == q;
                        assert(self.slots@[j] == a.slots@[j]);
                    }
                    assert(self@ =~= a@.insert(key@, value));
                    assert(self.holders() =~= a.holders().insert(key@, 0));
                }
                true
            },
        }
    }

    /// Takes a handle on the entry for `key`, if it exists: its count of
    /// outstanding handles goes up by one.
    pub fn checkout(&mut self, key: &ObjectId) -> (r: Option<Handle<V>>)
        requires
            old(self).wf(),
            old(self).holders().contains_key(key@) ==> old(self).holders()[key@] < usize::MAX,
        ensures
            final(self).wf(),
            final(self)@ == old(self)@,
            r.is_some() == old(self)@.contains_key(key@),
            r matches Some(h) ==> h@ == key@,
            r.is_some() ==> final(self).holders() == old(self).holders().insert(
                key@,
                old(self).holders()[key@] + 1,
            ),
            r.is_none() ==> final(self).holders() == old(self).holders(),
    {
        match self.find(key) {
            Some(i) => {
                let ghost a = *self;
                proof {
                    a.lemma_slot(i as int);
                }
                let n = self.slots[i].holders;
                self.slots[i].holders = n + 1;
                proof {
                    Self::lemma_slot_changed(a, *self, i as int);
                    assert(a@.insert(key@, a@[key@]) =~= a@);
                }
                Some(Handle { key: *key, kind: core::marker::PhantomData })
            },
            None => None,
        }
    }

    /// Gives back a handle: the count of its entry goes down by one. Returns
    /// false, and changes nothing, when the entry is gone or has no handles
    /// out.
    pub fn release(&mut self, handle: Handle<V>) -> (r: bool)
        requires
            old(self).wf(),
        ensures
            final(self).wf(),
            final(self)@ == old(self)@,
            r == (old(self).holders().contains_key(handle@) && old(self).holders()[handle@] > 0),
            r ==> final(self).holders() == old(self).holders().insert(
                handle@,
                (old(self).holders()[handle@] - 1) as nat,
            ),
            !r ==> final(self).holders() == old(self).holders(),
    {
        proof {
            self.lemma_keys();
        }
        match self.find(&handle.key) {
            Some(i) => {
                let ghost a = *self;
                proof {
                    a.lemma_slot(i as int);
                }
                let n = self.slots[i].holders;
                if n == 0 {
                    return false;
                }
                self.slots[i].holders = n - 1;
                proof {
                    Self::lemma_slot_changed(a, *self, i as int);
                    assert(a@.insert(handle@, a@[handle@]) =~= a@);
                }
                true
            },
            None => false,
        }
    }

    /// Mutable access to the value for `key`, which must exist.
    pub fn get_mut(&mut self, key: &ObjectId) -> (r: &mut V)
        requires
            old(self).wf(),
            old(self)@.contains_key(key@),
        ensures
            *r == old(self)@[key@],
            final(self).wf(),
            final(self)@ == old(self)@.insert(key@, *final(r)),
            final(self).holders() == old(self).holders(),
    {
        let i = match self.find(key) {
            Some(i) => i,
            None => {
                assert(false);
                0
            },
        };
        proof {
            self.lemma_slot(i as int);
            let a = *self;
            assert forall|b: Self| #![trigger b.wf()] #![trigger b@] #![trigger b.holders()]
                Self::slot_changed(a, b, i as int) && b.slots@[i as int].holders == a.slots@[i as int].holders
                implies b.wf() && b@ == a@.insert(key@, b.slots@[i as int].value)
                    && b.holders() == a.holders() by {
                Self::lemma_slot_changed(a, b, i as int);
                assert(a.holders().insert(key@, a.holders()[key@]) =~= a.holders());
            }
        }
        &mut self.slots[i].value
    }

    proof fn lemma_slot_removed(a: Self, b: Self, i: int)
        requires
            a.wf(),
            0 <= i < a.slots@.len(),
            b.slots@ == a.slots@.remove(i),
        ensures
            b.wf(),
            b@ == a@.remove(a.slots@[i].key@),
            b.holders() == a.holders().remove(a.slots@[i].key@),
    {
        let k = a.slots@[i].key@;
        let old_index = |j: int| if j < i { j } else { j + 1 };
        assert forall|x: int, y: int|
            0 <= x < b.slots@.len() && 0 <= y < b.slots@.len() && #[trigger] b.slots@[x].key@
                == #[trigger] b.slots@[y].key@ implies x == y by {
            assert(b.slots@[x] == a.slots@[old_index(x)]);
            assert(b.slots@[y] == a.slots@[old_index(y)]);
        }
        a.lemma_keys();
        b.lemma_keys();
        assert forall|q: Seq<u8>| #[trigger] b@.contains_key(q) <==> a@.remove(k).contains_key(q) by {
            if b@.contains_key(q) {
                let j = choose|j: int| 0 <= j < b.slots@.len() && b.slots@[j].key@ == q;
                assert(b.slots@[j] == a.slots@[old_index(j)]);
                assert(old_index(j) != i);
            }
            if a@.contains_key(q) && q != k {
                let j = choose|j: int| 0 <= j < a.slots@.len() && a.slots@[j].key@ == q;
                if j < i {
                    assert(b.slots@[j] == a.slots@[j]);
                } else {
                    assert(j != i);
                    assert(b.slots@[j - 1] == a.slots@[j]);
                }
            }
        }
        assert forall|q: Seq<u8>| #[trigger] b@.contains_key(q) implies b@[q] == a@[q]
            && b.holders()[q] == a.holders()[q] by {
            let j = choose|j: int| 0 <= j < b.slots@.len() && b.slots@[j].key@ == q;
            assert(b.slots@[j] == a.slots@[old_index(j)]);
        }
        assert(b@ =~= a@.remove(k));
        assert(b.holders() =~= a.holders().remove(k));
    }

    /// Looks up `key` and, in the same step, removes its entry if `pred`
    /// holds of its value and its number of outstanding handles. Returns
    /// whether the entry was removed: false when it is absent or when `pred`
    /// said no, and then nothing changes.
    pub fn true_remove_if<F: Fn(&V, usize) -> bool>(&mut self, key: &ObjectId, pred: F) -> (r: bool)
        requires
            old(self).wf(),
            forall|v: &V, n: usize| pred.requires((v, n)),
        ensures
            final(self).wf(),
            r ==> old(self)@.contains_key(key@),
            r ==> pred.ensures((&old(self)@[key@], old(self).holders()[key@] as usize), true),
            r ==> final(self)@ == old(self)@.remove(key@),
            r ==> final(self).holders() == old(self).holders().remove(key@),
            !r ==> final(self)@ == old(self)@,
            !r ==> final(self).holders() == old(self).holders(),
            !r && old(self)@.contains_key(key@) ==> pred.ensures(
                (&old(self)@[key@], old(self).holders()[key@] as usize),
                false,
            ),
    {
        match self.find(key) {
            Some(i) => {
                proof {
                    self.lemma_slot(i as int);
                }
                let remove = pred(&self.slots[i].value, self.slots[i].holders);
                if remove {
                    let ghost a = *self;
                    let _slot = self.slots.remove(i);
                    proof {
                        Self::lemma_slot_removed(a, *self, i as int);
                    }
                }
                remove
            },
            None => false,
        }
    }

    /// Removes the entry for `key` whatever its count of outstanding handles.
    /// Returns whether an entry was there. Handles still out on the entry stay
    /// dangling: callers must know that none is.
    pub fn remove(&mut self, key: &ObjectId) -> (r: bool)
        requires
            old(self).wf(),
        ensures
            final(self).wf(),
            r == old(self)@.contains_key(key@),
            final(self)@ == old(self)@.remove(key@),
            final(self).holders() == old(self).holders().remove(key@),
    {
        match self.find(key) {
            Some(i) => {
                let ghost a = *self;
                proof {
                    a.lemma_slot(i as int);
                }
                let _slot = self.slots.remove(i);
                proof {
                    Self::lemma_slot_removed(a, *self, i as int);
                }
                true
            },
            None => {
                proof {
                    self.lemma_keys();
                    assert(self@.remove(key@) =~= self@);
                    assert(self.holders().remove(key@) =~= self.holders());
                }
                false
            },
        }
    }

    /// The number of handles out on the entry for `key`, if it exists.
    pub fn holders_of(&self, key: &ObjectId) -> (r: Option<usize>)
        requires
            self.wf(),
        ensures
            r.is_some() == self@.contains_key(key@),
            r matches Some(n) ==> n as nat == self.holders()[key@],
    {
        match self.find(key) {
            Some(i) => {
                proof {
                    self.lemma_slot(i as int);
                }
                Some(self.slots[i].holders)
            },
            None => None,
        }
    }

    /// A read-only look at the value for `key`, taking no handle.
    pub fn get(&self, key: &ObjectId) -> (r: Option<&V>)
        requires
            self.wf(),
        ensures
            match r {
                Some(v) => self@.contains_key(key@) && *v == self@[key@],
                None => !self@.contains_key(key@),
            },
    {
        match self.find(key) {
            Some(i) => {
                proof {
                    self.lemma_slot(i as int);
                }
                Some(&self.slots[i].value)
            },
            None => None,
        }
    }
}

} // verus!

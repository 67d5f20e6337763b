use crate::cache::{Action, Slot};
use crate::error::ReleaseError;
use crate::range::DescriptionsQuery;
use crate::version::Version;
use vstd::prelude::*;

verus! {

/// A key of a cache: two keys name the same entry exactly if their
/// identities are equal.
pub trait CacheKey: Sized {
    type Id;

    spec fn id(&self) -> Self::Id;

    fn same(&self, other: &Self) -> (r: bool)
        ensures
            r == (self.id() == other.id()),
    ;
}

impl CacheKey for String {
    type Id = Seq<char>;

    open spec fn id(&self) -> Seq<char> {
        self@
    }

    fn same(&self, other: &Self) -> (r: bool) {
        *self == *other
    }
}

pub open spec fn bound_id(bound: Option<Version>) -> Option<(u64, u64, u64, Seq<char>, Seq<char>)> {
    match bound {
        Some(v) => Some(v.parts()),
        None => None,
    }
}

fn same_bound(a: &Option<Version>, b: &Option<Version>) -> (r: bool)
    ensures
        r == (bound_id(*a) == bound_id(*b)),
{
    match (a, b) {
        (Some(x), Some(y)) => x.same(y),
        (None, None) => true,
        _ => false,
    }
}

/// A range query is identified by the parsed values of its two bounds.
impl CacheKey for DescriptionsQuery {
    type Id = (
        Option<(u64, u64, u64, Seq<char>, Seq<char>)>,
        Option<(u64, u64, u64, Seq<char>, Seq<char>)>,
    );

    open spec fn id(&self) -> Self::Id {
        (bound_id(self.start), bound_id(self.end))
    }

    fn same(&self, other: &Self) -> (r: bool) {
        same_bound(&self.start, &other.start) && same_bound(&self.end, &other.end)
    }
}

/// A cache with one slot per key, a time to live and a cap on the number of
/// keys it keeps; only keys whose fill is in flight may stand beyond the cap.
pub struct FillCache<K: CacheKey, V> {
    pub ttl: u64,
    pub capacity: usize,
    pub keys: Vec<K>,
    pub slots: Vec<Slot<V>>,
}

impl<K: CacheKey, V> FillCache<K, V> {
    /// Every slot has a fill in flight.
    pub open spec fn all_pending(&self) -> bool {
        forall|i: int| 0 <= i < self.slots@.len() ==> #[trigger] self.slots@[i] is Pending
    }

    /// Every key has its slot, no key occurs twice, and the cap holds for
    /// everything but fills in flight: the cache keeps more keys than its
    /// capacity only while every one of them is being filled.
    pub open spec fn wf(&self) -> bool {
        &&& self.keys@.len() == self.slots@.len()
        &&& (self.keys@.len() > self.capacity ==> self.all_pending())
        &&& forall|i: int, j: int|
            0 <= i < j < self.keys@.len() ==> self.keys@[i].id() != self.keys@[j].id()
    }

    pub open spec fn holds(&self, id: K::Id, i: int) -> bool {
        0 <= i < self.keys@.len() && self.keys@[i].id() == id
    }

    /// The cache keeps a slot for the key.
    pub open spec fn tracks(&self, id: K::Id) -> bool {
        exists|i: int| self.holds(id, i)
    }

    /// The state of the key: that of its slot, or empty where it has none.
    pub open spec fn slot_of(&self, id: K::Id) -> Slot<V> {
        if self.tracks(id) {
            self.slots@[choose|i: int| self.holds(id, i)]
        } else {
            Slot::Empty
        }
    }

    /// Asking for the key adds a slot: the key has none, and there is room
    /// or nothing that could make room.
    pub open spec fn grows(&self, id: K::Id) -> bool {
        !self.tracks(id) && (self.keys@.len() < self.capacity || self.all_pending())
    }

    pub proof fn lemma_slot_at(&self, i: int)
        requires
            self.wf(),
            0 <= i < self.keys@.len(),
        ensures
            self.tracks(self.keys@[i].id()),
            self.slot_of(self.keys@[i].id()) == self.slots@[i],
    {
        let id = self.keys@[i].id();
        assert(self.holds(id, i));
        let j = choose|j: int| self.holds(id, j);
        assert(self.holds(id, j));
        assert(j == i);
    }

    pub proof fn lemma_untracked(&self, id: K::Id)
        requires
            forall|i: int| 0 <= i < self.keys@.len() ==> self.keys@[i].id() != id,
        ensures
            !self.tracks(id),
            self.slot_of(id) == Slot::<V>::Empty,
    {
        assert forall|i: int| !self.holds(id, i) by {}
    }

    pub fn new(ttl: u64, capacity: usize) -> (r: Self)
        ensures
            r.wf(),
            r.ttl == ttl,
            r.capacity == capacity,
            r.keys@.len() == 0,
            forall|id: K::Id| r.slot_of(id) == Slot::<V>::Empty,
    {
        let r = FillCache { ttl, capacity, keys: Vec::new(), slots: Vec::new() };
        proof {
            assert forall|id: K::Id| r.slot_of(id) == Slot::<V>::Empty by {
                r.lemma_untracked(id);
            }
        }
        r
    }

    /// Tests the invariant of the cache.
    pub fn is_well_formed(&self) -> (r: bool)
        ensures
            r == self.wf(),
    {
        if self.keys.len() != self.slots.len() {
            return false;
        }
        if self.keys.len() > self.capacity {
            match self.find_room() {
                Some(_) => { return false; },
                None => {},
            }
        }
        let mut j: usize = 0;
        while j < self.keys.len()
            invariant
                j <= self.keys@.len(),
                forall|a: int, b: int| 0 <= a < b < j ==> self.keys@[a].id() != self.keys@[b].id(),
            decreases self.keys@.len() - j,
        {
            let mut i: usize = 0;
            while i < j
                invariant
                    i <= j < self.keys@.len(),
                    forall|a: int| 0 <= a < i ==> self.keys@[a].id() != self.keys@[j as int].id(),
                decreases j - i,
            {
                if self.keys[i].same(&self.keys[j]) {
                    return false;
                }
                i += 1;
            }
            j += 1;
        }
        true
    }

    /// The number of keys that the cache keeps.
    pub fn len(&self) -> (r: usize)
        ensures
            r == self.keys@.len(),
    {
        self.keys.len()
    }

    fn find(&self, key: &K) -> (r: Option<usize>)
        requires
            self.wf(),
        ensures
            match r {
                Some(i) => self.holds(key.id(), i as int) && self.slot_of(key.id())
                    == self.slots@[i as int],
                None => !self.tracks(key.id()) && self.slot_of(key.id()) == Slot::<V>::Empty,
            },
    {
        let mut i: usize = 0;
        while i < self.keys.len()
            invariant
                i <= self.keys@.len(),
                self.wf(),
                forall|j: int| 0 <= j < i ==> self.keys@[j].id() != key.id(),
            decreases self.keys@.len() - i,
        {
            if self.keys[i].same(key) {
                proof {
                    self.lemma_slot_at(i as int);
                }
                return Some(i);
            }
            i += 1;
        }
        proof {
            self.lemma_untracked(key.id());
        }
        None
    }

    fn find_room(&self) -> (r: Option<usize>)
        ensures
            match r {
                Some(i) => i < self.slots@.len() && !(self.slots@[i as int] is Pending),
                None => forall|i: int|
                    0 <= i < self.slots@.len() ==> #[trigger] self.slots@[i] is Pending,
            },
    {
        let mut i: usize = 0;
        while i < self.slots.len()
            invariant
                i <= self.slots@.len(),
                forall|j: int| 0 <= j < i ==> #[trigger] self.slots@[j] is Pending,
            decreases self.slots@.len() - i,
        {
            match &self.slots[i] {
                Slot::Pending => {},
                _ => { return Some(i); },
            }
            i += 1;
        }
        None
    }

    /// What a caller that asks for `key` at `now` would be told; the cache
    /// stays as it is.
    pub fn decide(&self, key: &K, now: u64) -> (r: Action)
        requires
            self.wf(),
        ensures
            r == self.slot_of(key.id()).decision(self.ttl, now),
    {
        match self.find(key) {
            Some(i) => self.slots[i].decide(self.ttl, now),
            None => Action::Fill,
        }
    }

    /// The stored value of the key, if there is one.
    pub fn value(&self, key: &K) -> (r: Option<&V>)
        requires
            self.wf(),
        ensures
            match r {
                Some(v) => self.slot_of(key.id()).stored() == Some(*v),
                None => self.slot_of(key.id()).stored() is None,
            },
    {
        match self.find(key) {
            Some(i) => self.slots[i].value(),
            None => None,
        }
    }

    /// Tells a caller that asks for `key` at `now` what to do. A caller sent
    /// to fill always has its fill marked as in flight, so that whoever asks
    /// for the key next joins it. To make room for a new key the cache may
    /// drop the entry of another key that has no fill in flight; where every
    /// key has one, the new key is kept beyond the capacity.
    pub fn begin(&mut self, key: K, now: u64) -> (r: Action)
        requires
            old(self).wf(),
        ensures
            final(self).wf(),
            final(self).ttl == old(self).ttl,
            final(self).capacity == old(self).capacity,
            r == old(self).slot_of(key.id()).decision(old(self).ttl, now),
            final(self).keys@.len() == if old(self).grows(key.id()) {
                old(self).keys@.len() + 1
            } else {
                old(self).keys@.len()
            },
            r != Action::Fill ==> *final(self) == *old(self),
            r == Action::Fill ==> final(self).slot_of(key.id()) == Slot::<V>::Pending,
            forall|id: K::Id|
                id != key.id() ==> #[trigger] final(self).slot_of(id) == old(self).slot_of(id) || (
                final(self).slot_of(id) == Slot::<V>::Empty && !(old(self).slot_of(id) is Pending)
                    && !old(self).tracks(key.id()) && old(self).keys@.len()
                    >= old(self).capacity),
    {
        let ghost before = *self;
        match self.find(&key) {
            Some(i) => {
                let action = self.slots[i].decide(self.ttl, now);
                match action {
                    Action::Fill => {
                        self.slots.set(i, Slot::Pending);
                        proof {
                            self.lemma_slot_at(i as int);
                            assert forall|id: K::Id| id != key.id() implies #[trigger] self.slot_of(
                                id,
                            ) == before.slot_of(id) by {
                                self.lemma_frame(&before, id, i as int);
                            }
                        }
                    },
                    _ => {},
                }
                action
            },
            None => {
                let room = if self.keys.len() < self.capacity {
                    None
                } else {
                    self.find_room()
                };
                match room {
                    Some(i) => {
                        self.keys.set(i, key);
                        self.slots.set(i, Slot::Pending);
                        proof {
                            assert(!before.all_pending());
                            assert(self.keys@[i as int].id() == key.id());
                            assert forall|a: int, b: int|
                                0 <= a < b < self.keys@.len() implies self.keys@[a].id()
                                != self.keys@[b].id() by {
                                if a == i {
                                    assert(!before.holds(key.id(), b));
                                } else if b == i {
                                    assert(!before.holds(key.id(), a));
                                } else {
                                    assert(self.keys@[a] == before.keys@[a]);
                                    assert(self.keys@[b] == before.keys@[b]);
                                }
                            }
                            self.lemma_slot_at(i as int);
                            before.lemma_slot_at(i as int);
                            assert forall|id: K::Id| id != key.id() implies #[trigger] self.slot_of(
                            id) == before.slot_of(id) || (self.slot_of(id) == Slot::<V>::Empty && !(
                            before.slot_of(id) is Pending)) by {
                                self.lemma_replaced(&before, id, i as int);
                            }
                        }
                    },
                    None => {
                        self.keys.push(key);
                        self.slots.push(Slot::Pending);
                        proof {
                            let n = before.keys@.len() as int;
                            assert(self.keys@[n].id() == key.id());
                            assert forall|a: int, b: int|
                                0 <= a < b < self.keys@.len() implies self.keys@[a].id()
                                != self.keys@[b].id() by {
                                assert(self.keys@[a] == before.keys@[a]);
                                if b == n {
                                    assert(!before.holds(key.id(), a));
                                } else {
                                    assert(self.keys@[b] == before.keys@[b]);
                                }
                            }
                            if self.keys@.len() > self.capacity {
                                assert(before.all_pending());
                                assert forall|j: int| 0 <= j < self.slots@.len() implies (
                                #[trigger] self.slots@[j]) is Pending by {
                                    if j < n {
                                        assert(self.slots@[j] == before.slots@[j]);
                                    }
                                }
                            }
                            self.lemma_slot_at(n);
                            assert forall|id: K::Id| id != key.id() implies #[trigger] self.slot_of(
                                id,
                            ) == before.slot_of(id) by {
                                self.lemma_grown(&before, id);
                            }
                        }
                    },
                }
                Action::Fill
            },
        }
    }

    /// Ends the fill of `key` at `now`. The value of a fill that succeeded
    /// is stored; after one that failed nothing is stored for the key. While
    /// the cache keeps more keys than its capacity, the key is dropped
    /// instead, whatever the outcome. A key that the cache does not keep
    /// stays out of it.
    pub fn settle(&mut self, key: &K, outcome: Result<V, ReleaseError>, now: u64) -> (r: Result<
        (),
        ReleaseError,
    >)
        requires
            old(self).wf(),
        ensures
            final(self).wf(),
            final(self).ttl == old(self).ttl,
            final(self).capacity == old(self).capacity,
            match outcome {
                Ok(_) => r is Ok,
                Err(e) => r == Err::<(), ReleaseError>(e),
            },
            if !old(self).tracks(key.id()) {
                *final(self) == *old(self)
            } else if old(self).keys@.len() > old(self).capacity {
                final(self).slot_of(key.id()) == Slot::<V>::Empty && final(self).keys@.len()
                    == old(self).keys@.len() - 1
            } else {
                final(self).slot_of(key.id()) == Slot::after_settle(outcome, now)
                    && final(self).keys@ == old(self).keys@
            },
            forall|id: K::Id|
                id != key.id() ==> #[trigger] final(self).slot_of(id) == old(self).slot_of(id),
    {
        let ghost before = *self;
        match self.find(key) {
            Some(i) => {
                if self.keys.len() > self.capacity {
                    self.keys.remove(i);
                    self.slots.remove(i);
                    proof {
                        self.lemma_removed(&before, i as int);
                    }
                    match outcome {
                        Ok(_) => Ok(()),
                        Err(e) => Err(e),
                    }
                } else {
                    let mut slot = Slot::new();
                    let r = slot.settle(outcome, now);
                    self.slots.set(i, slot);
                    proof {
                        self.lemma_slot_at(i as int);
                        assert forall|id: K::Id| id != key.id() implies #[trigger] self.slot_of(id)
                            == before.slot_of(id) by {
                            self.lemma_frame(&before, id, i as int);
                        }
                    }
                    r
                }
            },
            None => {
                match outcome {
                    Ok(_) => Ok(()),
                    Err(e) => Err(e),
                }
            },
        }
    }

    proof fn lemma_removed(&self, before: &Self, i: int)
        requires
            before.wf(),
            0 <= i < before.keys@.len(),
            before.keys@.len() > before.capacity,
            self.capacity == before.capacity,
            self.keys@ == before.keys@.remove(i),
            self.slots@ == before.slots@.remove(i),
        ensures
            self.wf(),
            self.slot_of(before.keys@[i].id()) == Slot::<V>::Empty,
            forall|id: K::Id|
                id != before.keys@[i].id() ==> #[trigger] self.slot_of(id) == before.slot_of(id),
    {
        assert forall|j: int| 0 <= j < self.keys@.len() implies self.keys@[j] == before.keys@[if j
            < i {
            j
        } else {
            j + 1
        }] && self.slots@[j] == before.slots@[if j < i {
            j
        } else {
            j + 1
        }] by {}
        assert forall|a: int, b: int| 0 <= a < b < self.keys@.len() implies self.keys@[a].id()
            != self.keys@[b].id() by {
            let a0 = if a < i { a } else { a + 1 };
            let b0 = if b < i { b } else { b + 1 };
            assert(self.keys@[a] == before.keys@[a0]);
            assert(self.keys@[b] == before.keys@[b0]);
        }
        assert forall|j: int| 0 <= j < self.slots@.len() implies (#[trigger] self.slots@[j])
            is Pending by {
            let j0 = if j < i { j } else { j + 1 };
            assert(self.slots@[j] == before.slots@[j0]);
        }
        let gone = before.keys@[i].id();
        assert forall|j: int| 0 <= j < self.keys@.len() implies self.keys@[j].id() != gone by {
            let j0 = if j < i { j } else { j + 1 };
            assert(self.keys@[j] == before.keys@[j0]);
        }
        self.lemma_untracked(gone);
        assert forall|id: K::Id| id != gone implies #[trigger] self.slot_of(id) == before.slot_of(
            id,
        ) by {
            if before.tracks(id) {
                let j = choose|j: int| before.holds(id, j);
                assert(before.holds(id, j));
                before.lemma_slot_at(j);
                let k = if j < i { j } else { j - 1 };
                assert(self.keys@[k] == before.keys@[j]);
                assert(self.slots@[k] == before.slots@[j]);
                self.lemma_slot_at(k);
            } else {
                assert forall|j: int| 0 <= j < self.keys@.len() implies self.keys@[j].id()
                    != id by {
                    let j0 = if j < i { j } else { j + 1 };
                    assert(self.keys@[j] == before.keys@[j0]);
                    assert(!before.holds(id, j0));
                }
                self.lemma_untracked(id);
            }
        }
    }

    proof fn lemma_frame(&self, before: &Self, id: K::Id, i: int)
        requires
            before.wf(),
            self.wf(),
            self.keys@ == before.keys@,
            0 <= i < before.keys@.len(),
            before.keys@[i].id() != id,
            forall|j: int| 0 <= j < before.slots@.len() && j != i ==> self.slots@[j] == before.slots@[j],
        ensures
            self.slot_of(id) == before.slot_of(id),
    {
        if before.tracks(id) {
            let j = choose|j: int| before.holds(id, j);
            assert(before.holds(id, j));
            before.lemma_slot_at(j);
            self.lemma_slot_at(j);
        } else {
            assert forall|j: int| 0 <= j < self.keys@.len() implies self.keys@[j].id() != id by {
                assert(!before.holds(id, j));
            }
            self.lemma_untracked(id);
        }
    }

    proof fn lemma_grown(&self, before: &Self, id: K::Id)
        requires
            before.wf(),
            self.wf(),
            self.keys@.len() == before.keys@.len() + 1,
            self.keys@.last().id() != id,
            forall|j: int| 0 <= j < before.keys@.len() ==> self.keys@[j] == before.keys@[j],
            forall|j: int| 0 <= j < before.slots@.len() ==> self.slots@[j] == before.slots@[j],
        ensures
            self.slot_of(id) == before.slot_of(id),
    {
        if before.tracks(id) {
            let j = choose|j: int| before.holds(id, j);
            assert(before.holds(id, j));
            before.lemma_slot_at(j);
            self.lemma_slot_at(j);
        } else {
            assert forall|j: int| 0 <= j < self.keys@.len() implies self.keys@[j].id() != id by {
                if j < before.keys@.len() {
                    assert(!before.holds(id, j));
                }
            }
            self.lemma_untracked(id);
        }
    }

    proof fn lemma_replaced(&self, before: &Self, id: K::Id, i: int)
        requires
            before.wf(),
            self.wf(),
            self.keys@.len() == before.keys@.len(),
            0 <= i < before.keys@.len(),
            self.keys@[i].id() != id,
            !(before.slots@[i] is Pending),
            forall|j: int| 0 <= j < before.keys@.len() && j != i ==> self.keys@[j] == before.keys@[j],
            forall|j: int| 0 <= j < before.slots@.len() && j != i ==> self.slots@[j] == before.slots@[j],
        ensures
            self.slot_of(id) == before.slot_of(id) || (self.slot_of(id) == Slot::<V>::Empty && !(
            before.slot_of(id) is Pending)),
    {
        if before.tracks(id) {
            let j = choose|j: int| before.holds(id, j);
            assert(before.holds(id, j));
            before.lemma_slot_at(j);
            if j != i {
                self.lemma_slot_at(j);
            } else {
                assert forall|k: int| 0 <= k < self.keys@.len() implies self.keys@[k].id() != id by {
                    if k != i {
                        assert(before.keys@[k].id() != before.keys@[i].id());
                    }
                }
                self.lemma_untracked(id);
            }
        } else {
            assert forall|j: int| 0 <= j < self.keys@.len() implies self.keys@[j].id() != id by {
                if j != i {
                    assert(!before.holds(id, j));
                }
            }
            self.lemma_untracked(id);
        }
    }
}

} // verus!

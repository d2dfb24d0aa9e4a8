use vstd::prelude::*;
use crate::record::{record_opt, text_opt, StoredToken, TokenView};
use crate::store::{entry, StoreError, TokenStore};

verus! {

/// One stored entry, void from its deadline on (a clock reading, in seconds).
pub struct Slot<V> {
    pub key: String,
    pub value: V,
    pub deadline: Option<u64>,
}

/// Whether a slot is still live when the clock reads `clock`.
pub open spec fn slot_live<V>(s: Slot<V>, clock: u64) -> bool {
    match s.deadline {
        None => true,
        Some(d) => clock < d,
    }
}

/// The entries of one kind. Void slots stay in place and count for nothing.
pub struct Table<V> {
    pub slots: Vec<Slot<V>>,
}

impl<V: View> Table<V> {
    /// Slot `i` is live and holds key `k`.
    pub open spec fn holds(&self, i: int, k: Seq<char>, clock: u64) -> bool {
        0 <= i < self.slots@.len() && slot_live(self.slots@[i], clock) && self.slots@[i].key@ == k
    }

    pub open spec fn has(&self, k: Seq<char>, clock: u64) -> bool {
        exists|i: int| #[trigger] self.holds(i, k, clock)
    }

    /// No key is held by two live slots.
    pub open spec fn wf(&self, clock: u64) -> bool {
        forall|i: int, j: int, k: Seq<char>|
            #[trigger] self.holds(i, k, clock) && #[trigger] self.holds(j, k, clock) ==> i == j
    }

    /// The live entries, by key.
    pub open spec fn view_at(&self, clock: u64) -> Map<Seq<char>, V::V> {
        Map::new(
            |k: Seq<char>| self.has(k, clock),
            |k: Seq<char>| self.slots@[choose|i: int| self.holds(i, k, clock)].value@,
        )
    }

    proof fn lemma_holds_view(&self, i: int, k: Seq<char>, clock: u64)
        requires
            self.wf(clock),
            self.holds(i, k, clock),
        ensures
            self.view_at(clock).contains_key(k),
            self.view_at(clock)[k] == self.slots@[i].value@,
    {
        assert(self.has(k, clock));
        let j = choose|j: int| self.holds(j, k, clock);
        assert(self.holds(j, k, clock));
    }

    pub fn new() -> (r: Self)
        ensures
            forall|c: u64| r.wf(c) && r.view_at(c) == Map::<Seq<char>, V::V>::empty(),
    {
        let r = Table { slots: Vec::new() };
        assert forall|c: u64| r.wf(c) && r.view_at(c) == Map::<Seq<char>, V::V>::empty() by {
            assert(r.view_at(c) =~= Map::<Seq<char>, V::V>::empty());
        }
        r
    }

    /// The live slot that holds `key`, if any.
    pub fn find(&self, key: &String, clock: u64) -> (r: Option<usize>)
        ensures
            r is Some ==> self.holds(r->Some_0 as int, key@, clock),
            r is None ==> !self.has(key@, clock),
    {
        let mut i: usize = 0;
        while i < self.slots.len()
            invariant
                i <= self.slots@.len(),
                forall|j: int| 0 <= j < i ==> !#[trigger] self.holds(j, key@, clock),
            decreases self.slots@.len() - i,
        {
            let live = match self.slots[i].deadline {
                None => true,
                Some(d) => clock < d,
            };
            if live && self.slots[i].key == *key {
                return Some(i);
            }
            i = i + 1;
        }
        None
    }

    /// Puts a live entry under `key`, replacing the one there.
    pub fn put(&mut self, key: String, value: V, deadline: Option<u64>, clock: u64)
        requires
            old(self).wf(clock),
            slot_live(Slot { key, value, deadline }, clock),
        ensures
            final(self).wf(clock),
            final(self).view_at(clock) == old(self).view_at(clock).insert(key@, value@),
    {
        let ghost k = key@;
        let ghost v = value@;
        let ghost before = *self;
        match self.find(&key, clock) {
            Some(i) => {
                self.slots.set(i, Slot { key, value, deadline });
                assert forall|a: int, b: int, kk: Seq<char>|
                    #[trigger] self.holds(a, kk, clock) && #[trigger] self.holds(b, kk, clock)
                        implies a == b by {
                    if a != i && b != i {
                        assert(before.holds(a, kk, clock) && before.holds(b, kk, clock));
                    } else if a != i {
                        assert(before.holds(a, kk, clock) && before.holds(i as int, kk, clock));
                    } else if b != i {
                        assert(before.holds(b, kk, clock) && before.holds(i as int, kk, clock));
                    }
                }
                assert forall|kk: Seq<char>| #[trigger]
                    self.view_at(clock).contains_key(kk) == before.view_at(clock).insert(
                        k,
                        v,
                    ).contains_key(kk) && (self.view_at(clock).contains_key(kk)
                        ==> self.view_at(clock)[kk] == before.view_at(clock).insert(k, v)[kk]) by {
                    if kk == k {
                        self.lemma_holds_view(i as int, kk, clock);
                    } else if self.has(kk, clock) {
                        let j = choose|j: int| self.holds(j, kk, clock);
                        assert(before.holds(j, kk, clock));
                        self.lemma_holds_view(j, kk, clock);
                        before.lemma_holds_view(j, kk, clock);
                    } else if before.has(kk, clock) {
                        let j = choose|j: int| before.holds(j, kk, clock);
                        assert(self.holds(j, kk, clock));
                    }
                }
                assert(self.view_at(clock) =~= before.view_at(clock).insert(k, v));
            },
            None => {
                self.slots.push(Slot { key, value, deadline });
                let ghost n = before.slots@.len() as int;
                assert forall|a: int, b: int, kk: Seq<char>|
                    #[trigger] self.holds(a, kk, clock) && #[trigger] self.holds(b, kk, clock)
                        implies a == b by {
                    if a != n && b != n {
                        assert(before.holds(a, kk, clock) && before.holds(b, kk, clock));
                    } else if a != n {
                        assert(before.holds(a, kk, clock));
                    } else if b != n {
                        assert(before.holds(b, kk, clock));
                    }
                }
                assert forall|kk: Seq<char>| #[trigger]
                    self.view_at(clock).contains_key(kk) == before.view_at(clock).insert(
                        k,
                        v,
                    ).contains_key(kk) && (self.view_at(clock).contains_key(kk)
                        ==> self.view_at(clock)[kk] == before.view_at(clock).insert(k, v)[kk]) by {
                    if kk == k {
                        self.lemma_holds_view(n, kk, clock);
                    } else if self.has(kk, clock) {
                        let j = choose|j: int| self.holds(j, kk, clock);
                        assert(before.holds(j, kk, clock));
                        self.lemma_holds_view(j, kk, clock);
                        before.lemma_holds_view(j, kk, clock);
                    } else if before.has(kk, clock) {
                        let j = choose|j: int| before.holds(j, kk, clock);
                        assert(self.holds(j, kk, clock));
                    }
                }
                assert(self.view_at(clock) =~= before.view_at(clock).insert(k, v));
            },
        }
    }
    /// The live entry under `key`, if any.
    pub fn get(&self, key: &String, clock: u64) -> (r: Option<&V>)
        requires
            self.wf(clock),
        ensures
            r is Some <==> self.view_at(clock).contains_key(key@),
            r is Some ==> self.view_at(clock)[key@] == r->Some_0@,
    {
        match self.find(key, clock) {
            None => None,
            Some(i) => {
                proof {
                    self.lemma_holds_view(i as int, key@, clock);
                }
                Some(&self.slots[i].value)
            },
        }
    }

    /// Voids the entry under `key`; reports whether there was one.
    pub fn kill(&mut self, key: &String, clock: u64) -> (r: bool)
        requires
            old(self).wf(clock),
        ensures
            final(self).wf(clock),
            r == old(self).view_at(clock).contains_key(key@),
            final(self).view_at(clock) == old(self).view_at(clock).remove(key@),
    {
        let ghost before = *self;
        match self.find(key, clock) {
            None => {
                assert(self.view_at(clock) =~= before.view_at(clock).remove(key@));
                false
            },
            Some(i) => {
                self.slots[i].deadline = Some(0);
                assert forall|a: int, b: int, kk: Seq<char>|
                    #[trigger] self.holds(a, kk, clock) && #[trigger] self.holds(b, kk, clock)
                        implies a == b by {
                    assert(before.holds(a, kk, clock) && before.holds(b, kk, clock));
                }
                assert forall|kk: Seq<char>| #[trigger]
                    self.view_at(clock).contains_key(kk) == before.view_at(clock).remove(
                        key@,
                    ).contains_key(kk) && (self.view_at(clock).contains_key(kk)
                        ==> self.view_at(clock)[kk] == before.view_at(clock).remove(key@)[kk]) by {
                    if self.has(kk, clock) {
                        let j = choose|j: int| self.holds(j, kk, clock);
                        assert(before.holds(j, kk, clock));
                        self.lemma_holds_view(j, kk, clock);
                        before.lemma_holds_view(j, kk, clock);
                    } else if before.has(kk, clock) && kk != key@ {
                        let j = choose|j: int| before.holds(j, kk, clock);
                        assert(self.holds(j, kk, clock));
                    }
                }
                assert(self.view_at(clock) =~= before.view_at(clock).remove(key@));
                true
            },
        }
    }

    /// Gives the entry under `key`, if any, a new deadline that is still ahead.
    pub fn set_deadline(&mut self, key: &String, deadline: u64, clock: u64)
        requires
            old(self).wf(clock),
            clock < deadline,
        ensures
            final(self).wf(clock),
            final(self).view_at(clock) == old(self).view_at(clock),
    {
        let ghost before = *self;
        match self.find(key, clock) {
            None => {},
            Some(i) => {
                self.slots[i].deadline = Some(deadline);
                assert forall|a: int, b: int, kk: Seq<char>|
                    #[trigger] self.holds(a, kk, clock) && #[trigger] self.holds(b, kk, clock)
                        implies a == b by {
                    assert(before.holds(a, kk, clock) && before.holds(b, kk, clock));
                }
                assert forall|kk: Seq<char>| #[trigger]
                    self.view_at(clock).contains_key(kk) == before.view_at(clock).contains_key(kk)
                        && (self.view_at(clock).contains_key(kk) ==> self.view_at(clock)[kk]
                        == before.view_at(clock)[kk]) by {
                    if self.has(kk, clock) {
                        let j = choose|j: int| self.holds(j, kk, clock);
                        assert(before.holds(j, kk, clock));
                        self.lemma_holds_view(j, kk, clock);
                        before.lemma_holds_view(j, kk, clock);
                    } else if before.has(kk, clock) {
                        let j = choose|j: int| before.holds(j, kk, clock);
                        assert(self.holds(j, kk, clock));
                    }
                }
                assert(self.view_at(clock) =~= before.view_at(clock));
            },
        }
    }

    /// A later clock reading voids entries and adds none.
    pub proof fn lemma_later(&self, clock: u64, later: u64)
        requires
            self.wf(clock),
            clock <= later,
        ensures
            self.wf(later),
            self.view_at(later).submap_of(self.view_at(clock)),
    {
        assert forall|a: int, b: int, kk: Seq<char>|
            #[trigger] self.holds(a, kk, later) && #[trigger] self.holds(b, kk, later) implies a
            == b by {
            assert(self.holds(a, kk, clock) && self.holds(b, kk, clock));
        }
        assert forall|kk: Seq<char>| #[trigger]
            self.view_at(later).contains_key(kk) implies self.view_at(clock).contains_key(kk)
            && self.view_at(later)[kk] == self.view_at(clock)[kk] by {
            let j = choose|j: int| self.holds(j, kk, later);
            assert(self.holds(j, kk, clock));
            self.lemma_holds_view(j, kk, later);
            self.lemma_holds_view(j, kk, clock);
        }
    }
}

/// A store held in memory, with a clock of its own that moves only when told
/// to: entries lapse when the clock reaches their deadline.
pub struct MemoryStore {
    clock: u64,
    records: Table<StoredToken>,
    pointers: Table<String>,
    counters: Table<u64>,
}

impl MemoryStore {
    /// The clock reading, in seconds.
    pub closed spec fn now(&self) -> u64 {
        self.clock
    }

    /// An empty store whose clock reads zero.
    pub fn new() -> (r: MemoryStore)
        ensures
            r.records() == Map::<Seq<char>, TokenView>::empty(),
            r.pointers() == Map::<Seq<char>, Seq<char>>::empty(),
            r.counters() == Map::<Seq<char>, u64>::empty(),
            r.now() == 0,
            r.valid(),
            r.available(),
    {
        MemoryStore { clock: 0, records: Table::new(), pointers: Table::new(), counters: Table::new() }
    }

    /// Moves the clock `secs` seconds on (stopping at the largest reading).
    /// Entries whose deadline has come lapse; nothing else changes.
    pub fn advance(&mut self, secs: u64)
        requires
            old(self).valid(),
        ensures
            final(self).valid(),
            old(self).available() ==> final(self).available(),
            final(self).records().submap_of(old(self).records()),
            final(self).pointers().submap_of(old(self).pointers()),
            final(self).counters().submap_of(old(self).counters()),
            final(self).now() == if old(self).now() <= u64::MAX - secs {
                old(self).now() + secs
            } else {
                u64::MAX as int
            },
    {
        let later = if self.clock <= u64::MAX - secs {
            self.clock + secs
        } else {
            u64::MAX
        };
        proof {
            self.records.lemma_later(self.clock, later);
            self.pointers.lemma_later(self.clock, later);
            self.counters.lemma_later(self.clock, later);
        }
        self.clock = later;
    }

    /// The deadline `secs` seconds from now; none where it would pass the
    /// largest reading.
    fn deadline_after(&self, secs: u64) -> (r: Option<u64>)
        requires
            secs > 0,
        ensures
            match r {
                None => true,
                Some(d) => self.clock < d,
            },
    {
        if self.clock <= u64::MAX - secs {
            Some(self.clock + secs)
        } else {
            None
        }
    }
}

impl TokenStore for MemoryStore {
    closed spec fn valid(&self) -> bool {
        self.records.wf(self.clock) && self.pointers.wf(self.clock) && self.counters.wf(
            self.clock,
        )
    }

    closed spec fn available(&self) -> bool {
        true
    }

    closed spec fn records(&self) -> Map<Seq<char>, TokenView> {
        self.records.view_at(self.clock)
    }

    closed spec fn pointers(&self) -> Map<Seq<char>, Seq<char>> {
        self.pointers.view_at(self.clock)
    }

    closed spec fn counters(&self) -> Map<Seq<char>, u64> {
        self.counters.view_at(self.clock)
    }

    fn put_pair(
        &mut self,
        record_key: &String,
        record: &StoredToken,
        index_key: &String,
        ttl_secs: u64,
    ) -> (r: Result<(), StoreError>) {
        let deadline = self.deadline_after(ttl_secs);
        self.records.put(record_key.clone(), record.duplicate(), deadline, self.clock);
        self.pointers.put(index_key.clone(), record_key.clone(), deadline, self.clock);
        Ok(())
    }

    fn get_record(&mut self, key: &String) -> (r: Result<Option<StoredToken>, StoreError>) {
        match self.records.get(key, self.clock) {
            None => Ok(None),
            Some(t) => Ok(Some(t.duplicate())),
        }
    }

    fn take_record(&mut self, key: &String) -> (r: Result<Option<StoredToken>, StoreError>) {
        let found = match self.records.get(key, self.clock) {
            None => None,
            Some(t) => Some(t.duplicate()),
        };
        self.records.kill(key, self.clock);
        Ok(found)
    }

    fn remove_record(&mut self, key: &String) -> (r: Result<bool, StoreError>) {
        Ok(self.records.kill(key, self.clock))
    }

    fn get_pointer(&mut self, key: &String) -> (r: Result<Option<String>, StoreError>) {
        match self.pointers.get(key, self.clock) {
            None => Ok(None),
            Some(p) => Ok(Some(p.clone())),
        }
    }

    fn remove_pointer(&mut self, key: &String) -> (r: Result<bool, StoreError>) {
        Ok(self.pointers.kill(key, self.clock))
    }

    fn increment(&mut self, key: &String) -> (r: Result<u64, StoreError>) {
        let current: u64 = match self.counters.get(key, self.clock) {
            None => 0,
            Some(c) => *c,
        };
        if current == u64::MAX {
            return Err(StoreError::Unavailable);
        }
        let next = current + 1;
        let deadline = match self.counters.find(key, self.clock) {
            None => None,
            Some(i) => self.counters.slots[i].deadline,
        };
        self.counters.put(key.clone(), next, deadline, self.clock);
        Ok(next)
    }

    fn expire(&mut self, key: &String, secs: u64) -> (r: Result<(), StoreError>) {
        if secs == 0 {
            self.counters.kill(key, self.clock);
        } else {
            match self.deadline_after(secs) {
                Some(d) => self.counters.set_deadline(key, d, self.clock),
                None => {},
            }
        }
        Ok(())
    }
}

} // verus!

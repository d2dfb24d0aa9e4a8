use vstd::prelude::*;
use crate::record::{record_opt, text_opt, StoredToken, TokenView};

verus! {

/// A failed store operation.
#[derive(Clone, Copy, Debug, PartialEq, Eq, Structural)]
pub enum StoreError {
    /// The store could not be reached, or did not answer in time.
    Unavailable,
    /// A stored value could not be read back as a record.
    Corrupt,
}

/// The value under `k`, if any.
pub open spec fn entry<V>(m: Map<Seq<char>, V>, k: Seq<char>) -> Option<V> {
    if m.contains_key(k) {
        Some(m[k])
    } else {
        None
    }
}

/// The atomic operations that the exchange needs from a key-value store. Each
/// call is one atomic step of the store. The store holds three kinds of entries:
/// records under their primary keys, pointers from index keys to primary keys,
/// and counters. The model functions have closed defaults, which verified code
/// never unfolds; a store that is not itself verified leaves them as they are.
pub trait TokenStore {
    /// The store's own consistency, which every operation keeps.
    closed spec fn valid(&self) -> bool {
        true
    }

    /// The store answers: while it does, every operation succeeds (but an
    /// increment past the largest count) and it goes on answering. A store that
    /// is not itself verified promises nothing of the kind.
    closed spec fn available(&self) -> bool {
        false
    }

    /// The records, by primary key.
    closed spec fn records(&self) -> Map<Seq<char>, TokenView> {
        Map::empty()
    }

    /// The index pointers: from an index key to a primary key.
    closed spec fn pointers(&self) -> Map<Seq<char>, Seq<char>> {
        Map::empty()
    }

    /// The request counters, by counter key.
    closed spec fn counters(&self) -> Map<Seq<char>, u64> {
        Map::empty()
    }

    /// Writes a record and its index pointer in one atomic batch, both living
    /// `ttl_secs` seconds: both are written, or neither.
    fn put_pair(
        &mut self,
        record_key: &String,
        record: &StoredToken,
        index_key: &String,
        ttl_secs: u64,
    ) -> (r: Result<(), StoreError>)
        requires
            old(self).valid(),
            ttl_secs > 0,
        ensures
            final(self).valid(),
            old(self).available() ==> r is Ok && final(self).available(),
            r is Ok ==> final(self).records() == old(self).records().insert(record_key@, record@),
            r is Ok ==> final(self).pointers() == old(self).pointers().insert(
                index_key@,
                record_key@,
            ),
            r is Err ==> final(self).records() == old(self).records() && final(self).pointers()
                == old(self).pointers(),
            final(self).counters() == old(self).counters(),
    ;

    /// Reads a record without changing anything.
    fn get_record(&mut self, key: &String) -> (r: Result<Option<StoredToken>, StoreError>)
        requires
            old(self).valid(),
        ensures
            final(self).valid(),
            old(self).available() ==> r is Ok && final(self).available(),
            r is Ok ==> record_opt(r->Ok_0) == entry(old(self).records(), key@),
            final(self).records() == old(self).records(),
            final(self).pointers() == old(self).pointers(),
            final(self).counters() == old(self).counters(),
    ;

    /// Reads a record and deletes it in one atomic step: of two such calls on
    /// one key, at most one sees the record.
    fn take_record(&mut self, key: &String) -> (r: Result<Option<StoredToken>, StoreError>)
        requires
            old(self).valid(),
        ensures
            final(self).valid(),
            old(self).available() ==> r is Ok && final(self).available(),
            r is Ok ==> record_opt(r->Ok_0) == entry(old(self).records(), key@),
            r is Ok ==> final(self).records() == old(self).records().remove(key@),
            r is Err ==> final(self).records() == old(self).records(),
            final(self).pointers() == old(self).pointers(),
            final(self).counters() == old(self).counters(),
    ;

    /// Deletes a record; reports whether there was one.
    fn remove_record(&mut self, key: &String) -> (r: Result<bool, StoreError>)
        requires
            old(self).valid(),
        ensures
            final(self).valid(),
            old(self).available() ==> r is Ok && final(self).available(),
            r is Ok ==> r->Ok_0 == old(self).records().contains_key(key@),
            r is Ok ==> final(self).records() == old(self).records().remove(key@),
            r is Err ==> final(self).records() == old(self).records() || final(self).records()
                == old(self).records().remove(key@),
            final(self).pointers() == old(self).pointers(),
            final(self).counters() == old(self).counters(),
    ;

    /// Reads an index pointer without changing anything.
    fn get_pointer(&mut self, key: &String) -> (r: Result<Option<String>, StoreError>)
        requires
            old(self).valid(),
        ensures
            final(self).valid(),
            old(self).available() ==> r is Ok && final(self).available(),
            r is Ok ==> text_opt(r->Ok_0) == entry(old(self).pointers(), key@),
            final(self).records() == old(self).records(),
            final(self).pointers() == old(self).pointers(),
            final(self).counters() == old(self).counters(),
    ;

    /// Deletes an index pointer; reports whether there was one.
    fn remove_pointer(&mut self, key: &String) -> (r: Result<bool, StoreError>)
        requires
            old(self).valid(),
        ensures
            final(self).valid(),
            old(self).available() ==> r is Ok && final(self).available(),
            r is Ok ==> r->Ok_0 == old(self).pointers().contains_key(key@),
            r is Ok ==> final(self).pointers() == old(self).pointers().remove(key@),
            r is Err ==> final(self).pointers() == old(self).pointers() || final(self).pointers()
                == old(self).pointers().remove(key@),
            final(self).records() == old(self).records(),
            final(self).counters() == old(self).counters(),
    ;

    /// Adds one to a counter, an absent counter counting as zero, and returns the
    /// new count. A count that would pass `u64::MAX` is an error.
    fn increment(&mut self, key: &String) -> (r: Result<u64, StoreError>)
        requires
            old(self).valid(),
        ensures
            final(self).valid(),
            old(self).available() ==> final(self).available(),
            old(self).available() && (!old(self).counters().contains_key(key@)
                || old(self).counters()[key@] < u64::MAX) ==> r is Ok,
            r is Ok ==> r->Ok_0 == (if old(self).counters().contains_key(key@) {
                old(self).counters()[key@] + 1
            } else {
                1
            }),
            r is Ok ==> final(self).counters() == old(self).counters().insert(key@, r->Ok_0),
            r is Err ==> final(self).counters() == old(self).counters(),
            final(self).records() == old(self).records(),
            final(self).pointers() == old(self).pointers(),
    ;

    /// Lets a counter lapse `secs` seconds from now; at once where `secs` is zero.
    fn expire(&mut self, key: &String, secs: u64) -> (r: Result<(), StoreError>)
        requires
            old(self).valid(),
        ensures
            final(self).valid(),
            old(self).available() ==> r is Ok && final(self).available(),
            r is Ok ==> final(self).counters() == if secs == 0 {
                old(self).counters().remove(key@)
            } else {
                old(self).counters()
            },
            r is Err ==> final(self).counters() == old(self).counters(),
            final(self).records() == old(self).records(),
            final(self).pointers() == old(self).pointers(),
    ;
}

} // verus!

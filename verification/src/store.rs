use std::collections::HashMap;
use vstd::prelude::*;

use crate::error::Error;

verus! {

broadcast use vstd::std_specs::hash::group_hash_axioms;

/// The records of a dense store: the record with identifier `i` stands at
/// place `i`.
pub open spec fn record_map<V>(records: Seq<V>) -> Map<u64, V> {
    Map::new(|id: u64| (id as int) < records.len(), |id: u64| records[id as int])
}

/// Records under numeric identifiers, together with the counter that issues
/// the identifiers. The counter only grows, so no identifier is issued twice.
pub struct Store<R> {
    records: HashMap<u64, R>,
    next: u64,
}

impl<R: View> View for Store<R> {
    type V = Map<u64, R::V>;

    closed spec fn view(&self) -> Map<u64, R::V> {
        self.records@.map_values(|r: R| r@)
    }
}

impl<R: View> Store<R> {
    /// The identifier that will be issued next.
    pub closed spec fn next_free(&self) -> u64 {
        self.next
    }

    /// Every identifier that holds a record has been issued.
    pub open spec fn wf(&self) -> bool {
        forall|id: u64| self@.contains_key(id) ==> id < self.next_free()
    }

    /// The empty store; its first identifier will be 0.
    pub fn new() -> (store: Store<R>)
        ensures
            store.wf(),
            store@ == Map::<u64, R::V>::empty(),
            store.next_free() == 0,
    {
        let store = Store { records: HashMap::new(), next: 0 };
        assert(store@ =~= Map::<u64, R::V>::empty());
        store
    }

    /// The store that holds `records[i]` under the identifier `i`, for each
    /// place `i`; its next identifier is the number of records.
    pub fn from_records(records: Vec<R>) -> (store: Store<R>)
        ensures
            store.wf(),
            store.next_free() == records@.len(),
            store@ == record_map(Seq::new(records@.len(), |i: int| records@[i]@)),
    {
        let mut rest = records;
        let mut map: HashMap<u64, R> = HashMap::new();
        let count: usize = rest.len();
        let mut i: usize = count;
        while i > 0
            invariant
                i == rest@.len(),
                i <= count,
                count == records@.len(),
                forall|j: int| 0 <= j < i ==> rest@[j] == records@[j],
                forall|id: u64| #[trigger] map@.contains_key(id) <==> i <= id < count,
                forall|id: u64| i <= id < count ==> #[trigger] map@[id] == records@[id as int],
            decreases i,
        {
            let record = rest.pop().unwrap();
            i -= 1;
            map.insert(i as u64, record);
        }
        let store = Store { records: map, next: count as u64 };
        assert(store@ =~= record_map(Seq::new(records@.len(), |i: int| records@[i]@)));
        store
    }

    /// The identifier that `next_id` would issue.
    pub fn peek_id(&self) -> (id: u64)
        ensures
            id == self.next_free(),
    {
        self.next
    }

    /// Issues the next unused identifier and reserves it: it is larger than
    /// every identifier issued before and will not be issued again.
    pub fn next_id(&mut self) -> (id: u64)
        requires
            old(self).wf(),
            old(self).next_free() < u64::MAX,
        ensures
            final(self).wf(),
            id == old(self).next_free(),
            final(self).next_free() == id + 1,
            final(self)@ == old(self)@,
            !final(self)@.contains_key(id),
    {
        let id = self.next;
        self.next = id + 1;
        assert(self@ == old(self)@);
        id
    }

    /// Puts `record` under the issued identifier `id`, in place of what was
    /// there.
    pub fn insert(&mut self, id: u64, record: R)
        requires
            old(self).wf(),
            id < old(self).next_free(),
        ensures
            final(self).wf(),
            final(self)@ == old(self)@.insert(id, record@),
            final(self).next_free() == old(self).next_free(),
    {
        self.records.insert(id, record);
        assert(self@ =~= old(self)@.insert(id, record@));
    }

    /// Whether a record lies under `id`.
    pub fn contains(&self, id: u64) -> (found: bool)
        ensures
            found == self@.contains_key(id),
    {
        self.records.contains_key(&id)
    }

    /// The record under `id`.
    pub fn get(&self, id: u64) -> (found: Option<&R>)
        ensures
            match found {
                Some(record) => self@.contains_key(id) && record@ == self@[id],
                None => !self@.contains_key(id),
            },
    {
        self.records.get(&id)
    }

    /// Puts `record` in place of the record under `id`. Without a record
    /// there, refused with `NotFound`.
    pub fn update(&mut self, id: u64, record: R) -> (r: Result<(), Error>)
        requires
            old(self).wf(),
        ensures
            final(self).wf(),
            final(self).next_free() == old(self).next_free(),
            old(self)@.contains_key(id) ==> r == Ok::<(), Error>(())
                && final(self)@ == old(self)@.insert(id, record@),
            !old(self)@.contains_key(id) ==> r == Err::<(), Error>(Error::NotFound)
                && final(self)@ == old(self)@,
    {
        if !self.records.contains_key(&id) {
            return Err(Error::NotFound);
        }
        assert(self@.contains_key(id));
        self.records.insert(id, record);
        assert(self@ =~= old(self)@.insert(id, record@));
        Ok(())
    }

    /// Takes the record under `id` out and hands it over. The identifier
    /// stays used.
    pub fn remove(&mut self, id: u64) -> (taken: Option<R>)
        requires
            old(self).wf(),
        ensures
            final(self).wf(),
            final(self).next_free() == old(self).next_free(),
            final(self)@ == old(self)@.remove(id),
            match taken {
                Some(record) => old(self)@.contains_key(id) && record@ == old(self)@[id],
                None => !old(self)@.contains_key(id),
            },
    {
        let taken = self.records.remove(&id);
        assert(self@ =~= old(self)@.remove(id));
        taken
    }
}

} // verus!

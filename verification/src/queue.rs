use vstd::prelude::*;

use crate::error::Error;

verus! {

/// What is left of `s` once the first occurrence of `id` is taken out.
/// Without an occurrence, `s` itself.
pub open spec fn without(s: Seq<u64>, id: u64) -> Seq<u64> {
    s.remove_value(id)
}

/// In a sequence without repetition, taking `id` out leaves every other
/// element in place and in order, and `id` is gone.
pub proof fn lemma_without(s: Seq<u64>, id: u64)
    requires
        s.no_duplicates(),
    ensures
        without(s, id).no_duplicates(),
        !without(s, id).contains(id),
        forall|x: u64| x != id ==> (#[trigger] without(s, id).contains(x) <==> s.contains(x)),
        s.contains(id) ==> without(s, id).len() == s.len() - 1,
        !s.contains(id) ==> without(s, id) == s,
{
    s.index_of_first_ensures(id);
    match s.index_of_first(id) {
        Some(i) => {
            let t = s.remove(i);
            assert(t == without(s, id));
            assert forall|a: int, b: int|
                0 <= a < t.len() && 0 <= b < t.len() && a != b implies t[a] != t[b] by {
                let a0 = if a < i { a } else { a + 1 };
                let b0 = if b < i { b } else { b + 1 };
                assert(t[a] == s[a0] && t[b] == s[b0]);
            }
            assert forall|x: u64| x != id implies (#[trigger] t.contains(x) <==> s.contains(x)) by {
                if t.contains(x) {
                    let a = choose|a: int| 0 <= a < t.len() && t[a] == x;
                    let a0 = if a < i { a } else { a + 1 };
                    assert(s[a0] == x);
                }
                if s.contains(x) {
                    let a0 = choose|a: int| 0 <= a < s.len() && s[a] == x;
                    let a = if a0 < i { a0 } else { a0 - 1 };
                    assert(t[a] == x);
                }
            }
            if t.contains(id) {
                let a = choose|a: int| 0 <= a < t.len() && t[a] == id;
                let a0 = if a < i { a } else { a + 1 };
                assert(s[a0] == id && a0 != i);
            }
        },
        None => {},
    }
}

/// Appending an element that a sequence without repetition does not hold
/// keeps it without repetition and adds exactly that element.
pub proof fn lemma_appended(s: Seq<u64>, id: u64)
    requires
        s.no_duplicates(),
        !s.contains(id),
    ensures
        s.push(id).no_duplicates(),
        s.push(id).contains(id),
        forall|x: u64| #[trigger] s.push(id).contains(x) <==> s.contains(x) || x == id,
{
    let t = s.push(id);
    assert(t[s.len() as int] == id);
    assert forall|a: int, b: int|
        0 <= a < t.len() && 0 <= b < t.len() && a != b implies t[a] != t[b] by {
        if a < s.len() {
            assert(s.contains(t[a]));
        }
        if b < s.len() {
            assert(s.contains(t[b]));
        }
    }
    assert forall|x: u64| #[trigger] t.contains(x) <==> s.contains(x) || x == id by {
        if s.contains(x) {
            let a = choose|a: int| 0 <= a < s.len() && s[a] == x;
            assert(t[a] == x);
        }
        if t.contains(x) && x != id {
            let a = choose|a: int| 0 <= a < t.len() && t[a] == x;
            assert(s[a] == x);
        }
    }
}

/// An ordered collection of identifiers, front to back, in which no
/// identifier occurs twice.
pub struct Queue {
    items: Vec<u64>,
}

impl View for Queue {
    type V = Seq<u64>;

    closed spec fn view(&self) -> Seq<u64> {
        self.items@
    }
}

impl Queue {
    /// No identifier occurs twice.
    pub open spec fn wf(&self) -> bool {
        self@.no_duplicates()
    }

    /// The empty queue.
    pub fn new() -> (q: Queue)
        ensures
            q.wf(),
            q@ == Seq::<u64>::empty(),
    {
        Queue { items: Vec::new() }
    }

    /// The queue that holds `items`, front to back.
    pub(crate) fn from_distinct(items: Vec<u64>) -> (q: Queue)
        requires
            items@.no_duplicates(),
        ensures
            q.wf(),
            q@ == items@,
    {
        Queue { items }
    }

    /// The number of identifiers that wait.
    pub fn len(&self) -> (n: u64)
        ensures
            n == self@.len(),
    {
        self.items.len() as u64
    }

    /// The place of the first occurrence of `id`, counted from the front.
    fn position(&self, id: u64) -> (found: Option<usize>)
        ensures
            match found {
                Some(i) => i < self@.len() && self@[i as int] == id && self@.index_of_first(id)
                    == Some(i as int),
                None => !self@.contains(id),
            },
    {
        let mut i: usize = 0;
        while i < self.items.len()
            invariant
                i <= self.items@.len(),
                forall|j: int| 0 <= j < i ==> self.items@[j] != id,
            decreases self.items@.len() - i,
        {
            if self.items[i] == id {
                proof {
                    self@.index_of_first_ensures(id);
                }
                return Some(i);
            }
            i += 1;
        }
        None
    }

    /// Whether `id` waits in the queue.
    pub fn contains(&self, id: u64) -> (found: bool)
        ensures
            found == self@.contains(id),
    {
        self.position(id).is_some()
    }

    /// Appends `id` at the back. An identifier that already waits is refused
    /// with `DuplicateEntry`.
    pub fn push(&mut self, id: u64) -> (r: Result<(), Error>)
        requires
            old(self).wf(),
        ensures
            final(self).wf(),
            old(self)@.contains(id) ==> r == Err::<(), Error>(Error::DuplicateEntry)
                && final(self)@ == old(self)@,
            !old(self)@.contains(id) ==> r == Ok::<(), Error>(())
                && final(self)@ == old(self)@.push(id),
    {
        if self.contains(id) {
            return Err(Error::DuplicateEntry);
        }
        self.items.push(id);
        Ok(())
    }

    /// Takes `id` out and closes the gap; the others keep their order. An
    /// identifier that does not wait is refused with `NotFound`.
    pub fn remove(&mut self, id: u64) -> (r: Result<(), Error>)
        requires
            old(self).wf(),
        ensures
            final(self).wf(),
            old(self)@.contains(id) ==> r == Ok::<(), Error>(())
                && final(self)@ == without(old(self)@, id)
                && final(self)@.len() == old(self)@.len() - 1
                && !final(self)@.contains(id),
            !old(self)@.contains(id) ==> r == Err::<(), Error>(Error::NotFound)
                && final(self)@ == old(self)@,
    {
        match self.position(id) {
            Some(i) => {
                proof {
                    lemma_without(self@, id);
                }
                self.items.remove(i);
                Ok(())
            },
            None => Err(Error::NotFound),
        }
    }

    /// A copy of the identifiers, front to back. Later changes to the queue
    /// do not reach it.
    pub fn snapshot(&self) -> (ids: Vec<u64>)
        ensures
            ids@ == self@,
    {
        self.items.clone()
    }
}

} // verus!

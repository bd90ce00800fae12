//! A queue of items that remember when they were inserted.

use vstd::prelude::*;
use vstd::std_specs::cmp::PartialEqSpec;
use std::time::Instant;

verus! {

#[verifier::external_type_specification]
#[verifier::external_body]
pub struct ExInstant(Instant);

/// Reads the clock through `std::time::Instant::now`.
///
/// Nothing is claimed of the reading: it depends on the time of the call.
#[verifier::external_body]
pub(crate) fn instant_now() -> Instant {
    Instant::now()
}

/// An item of a `Queue` together with its insertion time.
#[derive(Debug)]
pub struct Entry<T> {
    inserted: Instant,
    item: T,
}

impl<T> Entry<T> {
    /// The item of this entry.
    pub closed spec fn item_spec(&self) -> T {
        self.item
    }

    /// The insertion time of this entry.
    pub closed spec fn inserted_spec(&self) -> Instant {
        self.inserted
    }

    /// Wrap `item`, stamped with the current time.
    fn new(item: T) -> (entry: Self)
        ensures
            entry.item_spec() == item,
    {
        Entry { inserted: instant_now(), item }
    }

    /// The time at which the entry was inserted.
    pub fn inserted(&self) -> (inserted: Instant)
        ensures
            inserted == self.inserted_spec(),
    {
        self.inserted
    }

    /// The item of this entry.
    pub fn item(&self) -> (item: &T)
        ensures
            *item == self.item_spec(),
    {
        &self.item
    }

    /// Take the item out of this entry.
    pub fn into_item(self) -> (item: T)
        ensures
            item == self.item_spec(),
    {
        self.item
    }
}

impl<T> std::ops::Deref for Entry<T> {
    type Target = T;

    fn deref(&self) -> (item: &T)
        ensures
            *item == self.item_spec(),
    {
        &self.item
    }
}

/// The items of `entries`, in order.
pub open spec fn entry_items<T>(entries: Seq<Entry<T>>) -> Seq<T> {
    entries.map_values(|e: Entry<T>| e.item_spec())
}

/// The position of the first entry of `entries` whose item equals `item`
/// (by the item type's `==`), if any.
pub open spec fn position_of<T: PartialEq>(entries: Seq<Entry<T>>, item: T) -> Option<int> {
    if exists|i: int| 0 <= i < entries.len() && entries[i].item_spec().eq_spec(&item) {
        let i = choose|i: int|
            0 <= i < entries.len() && entries[i].item_spec().eq_spec(&item) && forall|j: int|
                0 <= j < i ==> !entries[j].item_spec().eq_spec(&item);
        Some(i)
    } else {
        None
    }
}

/// The entries after removing the first one that holds `item`, and the removed entry.
pub open spec fn remove_spec<T: PartialEq>(entries: Seq<Entry<T>>, item: T) -> (Seq<Entry<T>>, Option<Entry<T>>) {
    match position_of(entries, item) {
        Some(i) => (entries.remove(i), Some(entries[i])),
        None => (entries, None),
    }
}

/// The entries after removing each of `items` in turn, and the removed entries.
pub open spec fn remove_all_spec<T: PartialEq>(entries: Seq<Entry<T>>, items: Seq<T>) -> (Seq<Entry<T>>, Seq<Entry<T>>)
    decreases items.len(),
{
    if items.len() == 0 {
        (entries, Seq::empty())
    } else {
        let (rest, found) = remove_all_spec(entries, items.drop_last());
        let (after, removed) = remove_spec(rest, items.last());
        match removed {
            Some(e) => (after, found.push(e)),
            None => (after, found),
        }
    }
}

/// A queue of elements that have an associated insertion time (`inserted`).
#[derive(Debug)]
pub struct Queue<T> {
    entries: std::collections::VecDeque<Entry<T>>,
}

impl<T> Default for Queue<T> {
    fn default() -> (queue: Self)
        ensures
            queue.entries_spec() == Seq::<Entry<T>>::empty(),
    {
        Queue { entries: std::collections::VecDeque::new() }
    }
}

impl<T> Queue<T> {
    /// The entries of the queue, oldest first.
    pub closed spec fn entries_spec(&self) -> Seq<Entry<T>> {
        self.entries@
    }

    /// The items of the queue, oldest first.
    pub open spec fn items(&self) -> Seq<T> {
        entry_items(self.entries_spec())
    }

    /// Create an empty queue.
    pub fn new() -> (queue: Self)
        ensures
            queue.entries_spec() == Seq::<Entry<T>>::empty(),
    {
        Queue { entries: std::collections::VecDeque::new() }
    }

    /// Insert an `item` into the queue.
    pub fn insert(&mut self, item: T)
        ensures
            final(self).entries_spec().len() == old(self).entries_spec().len() + 1,
            final(self).entries_spec().drop_last() == old(self).entries_spec(),
            final(self).entries_spec().last().item_spec() == item,
            final(self).items() == old(self).items().push(item),
    {
        self.entries.push_back(Entry::new(item));
        proof {
            assert(self.entries_spec().drop_last() =~= old(self).entries_spec());
            assert(self.items() =~= old(self).items().push(item));
        }
    }

    /// Get the number of items in the queue.
    pub fn len(&self) -> (len: usize)
        ensures
            len == self.entries_spec().len(),
    {
        self.entries.len()
    }

    /// Check whether the queue is empty.
    pub fn is_empty(&self) -> (empty: bool)
        ensures
            empty == (self.entries_spec().len() == 0),
    {
        self.len() == 0
    }

    /// Get a reference to the first `Entry` of the queue.
    pub fn peek(&self) -> (first: Option<&Entry<T>>)
        ensures
            self.entries_spec().len() == 0 ==> first.is_none(),
            self.entries_spec().len() > 0 ==> first == Some(&self.entries_spec()[0]),
    {
        if self.len() == 0 {
            None
        } else {
            Some(&self.entries[0])
        }
    }

    /// Remove the oldest entry and return its item.
    pub fn next(&mut self) -> (item: Option<T>)
        ensures
            old(self).entries_spec().len() == 0 ==> item.is_none() && final(self).entries_spec()
                == old(self).entries_spec(),
            old(self).entries_spec().len() > 0 ==> item == Some(old(self).items()[0])
                && final(self).entries_spec() == old(self).entries_spec().drop_first(),
    {
        match self.entries.pop_front() {
            Some(entry) => Some(entry.into_item()),
            None => None,
        }
    }

    /// Remove the first entry whose item equals `item` from the queue.
    ///
    /// **Note:** This needs to scan the whole queue
    /// and therefore has an `O(n)` runtime.
    pub fn remove(&mut self, item: &T) -> (removed: Option<Entry<T>>)
        where
            T: PartialEq,
        ensures
            removed.is_none() ==> final(self).entries_spec() == old(self).entries_spec(),
            removed matches Some(entry) ==> exists|i: int|
                0 <= i < old(self).entries_spec().len() && entry == old(self).entries_spec()[i]
                    && final(self).entries_spec() == #[trigger] old(self).entries_spec().remove(i),
            T::obeys_eq_spec() ==> final(self).entries_spec() == remove_spec(old(self).entries_spec(), *item).0
                && removed == remove_spec(old(self).entries_spec(), *item).1,
    {
        let ghost entries = self.entries@;
        let len = self.entries.len();
        let mut i: usize = 0;
        while i < len
            invariant
                len == self.entries@.len(),
                self.entries@ == entries,
                entries == old(self).entries_spec(),
                i <= len,
                T::obeys_eq_spec() ==> forall|j: int| 0 <= j < i ==> !entries[j].item_spec().eq_spec(item),
            decreases len - i,
        {
            if self.entries[i].item == *item {
                let removed = self.entries.remove(i);
                proof {
                    if T::obeys_eq_spec() {
                        assert(entries[i as int].item_spec().eq_spec(item));
                        assert(position_of(entries, *item) == Some(i as int));
                        assert(remove_spec(entries, *item) == (entries.remove(i as int), Some(entries[i as int])));
                    }
                }
                return removed;
            }
            i = i + 1;
        }
        proof {
            if T::obeys_eq_spec() {
                assert(position_of(entries, *item) == None::<int>);
            }
        }
        None
    }

    /// Remove each of `items` from the queue (see `remove`).
    ///
    /// **Note:** This needs to scan the whole queue for each item
    /// and therefore has an `O(n * m)` runtime.
    ///
    /// Returns all found entries.
    pub fn remove_all(&mut self, items: &Vec<T>) -> (removed: Vec<Entry<T>>)
        where
            T: PartialEq,
        ensures
            final(self).entries_spec().len() + removed@.len() == old(self).entries_spec().len(),
            removed@.len() <= items@.len(),
            T::obeys_eq_spec() ==> final(self).entries_spec() == remove_all_spec(old(self).entries_spec(), items@).0
                && removed@ == remove_all_spec(old(self).entries_spec(), items@).1,
    {
        let mut found: Vec<Entry<T>> = Vec::new();
        let mut k: usize = 0;
        while k < items.len()
            invariant
                k <= items@.len(),
                self.entries_spec().len() + found@.len() == old(self).entries_spec().len(),
                found@.len() <= k,
                T::obeys_eq_spec() ==> self.entries_spec() == remove_all_spec(old(self).entries_spec(), items@.take(k as int)).0
                    && found@ == remove_all_spec(old(self).entries_spec(), items@.take(k as int)).1,
            decreases items@.len() - k,
        {
            let removed = self.remove(&items[k]);
            proof {
                assert(items@.take(k + 1).drop_last() =~= items@.take(k as int));
                assert(items@.take(k + 1).last() == items@[k as int]);
            }
            match removed {
                Some(entry) => found.push(entry),
                None => {},
            }
            k = k + 1;
        }
        proof {
            assert(items@.take(items@.len() as int) =~= items@);
        }
        found
    }

    /// Append all `items` to the queue, in order.
    pub fn extend(&mut self, items: Vec<T>)
        ensures
            final(self).entries_spec().len() == old(self).entries_spec().len() + items@.len(),
            final(self).entries_spec().take(old(self).entries_spec().len() as int) == old(self).entries_spec(),
            final(self).items() == old(self).items() + items@,
    {
        let mut items = items;
        let ghost all = items@;
        let mut rest: Vec<T> = Vec::new();
        // Reverse first, so that the items can be moved out from the back in order.
        while items.len() > 0
            invariant
                rest@ + items@.reverse() =~= all.reverse(),
            decreases items.len(),
        {
            let x = items.pop().unwrap();
            rest.push(x);
        }
        while rest.len() > 0
            invariant
                self.entries_spec().len() >= old(self).entries_spec().len(),
                self.entries_spec().len() + rest@.len() == old(self).entries_spec().len() + all.len(),
                self.entries_spec().take(old(self).entries_spec().len() as int) == old(self).entries_spec(),
                self.items() + rest@.reverse() =~= old(self).items() + all,
            decreases rest.len(),
        {
            let x = rest.pop().unwrap();
            let ghost before = self.entries_spec();
            self.insert(x);
            assert(self.entries_spec().take(old(self).entries_spec().len() as int) =~= before.take(
                old(self).entries_spec().len() as int,
            ));
        }
    }
}


/// A call on a `Queue`, with what it was given and what it handed back.
pub enum QueueCall<T> {
    /// `insert(item)`.
    Insert(T),
    /// `extend(items)`.
    Extend(Seq<T>),
    /// `next()`, with its result.
    Next(Option<T>),
    /// `remove(item)`, with its result.
    Remove(T, Option<Entry<T>>),
    /// `remove_all(items)`, with the entries it returned.
    RemoveAll(Seq<T>, Seq<Entry<T>>),
    /// `len()` or `is_empty()`, which leave the queue as it is.
    Len,
}

/// Whether `call` may take the queue from `before` to `after`, as the
/// contract of the called function states.
pub open spec fn queue_call_effect<T: PartialEq>(before: Queue<T>, call: QueueCall<T>, after: Queue<T>) -> bool {
    let b = before.entries_spec();
    let a = after.entries_spec();
    match call {
        QueueCall::Insert(item) => a.len() == b.len() + 1 && a.drop_last() == b && a.last().item_spec() == item,
        QueueCall::Extend(items) => a.len() == b.len() + items.len() && a.take(b.len() as int) == b
            && after.items() == before.items() + items,
        QueueCall::Next(item) => if b.len() == 0 {
            item.is_none() && a == b
        } else {
            item == Some(before.items()[0]) && a == b.drop_first()
        },
        QueueCall::Remove(item, removed) => {
            &&& removed.is_none() ==> a == b
            &&& removed matches Some(entry) ==> exists|i: int|
                0 <= i < b.len() && entry == b[i] && a == #[trigger] b.remove(i)
            &&& T::obeys_eq_spec() ==> a == remove_spec(b, item).0 && removed == remove_spec(b, item).1
        },
        QueueCall::RemoveAll(items, removed) => {
            &&& a.len() + removed.len() == b.len()
            &&& T::obeys_eq_spec() ==> a == remove_all_spec(b, items).0 && removed == remove_all_spec(
                b,
                items,
            ).1
        },
        QueueCall::Len => a == b,
    }
}

/// The number of items that `calls` add.
pub open spec fn items_added<T>(calls: Seq<QueueCall<T>>) -> nat
    decreases calls.len(),
{
    if calls.len() == 0 {
        0
    } else {
        items_added(calls.drop_last()) + match calls.last() {
            QueueCall::Insert(_) => 1nat,
            QueueCall::Extend(items) => items.len(),
            _ => 0nat,
        }
    }
}

/// The number of items that `calls` hand back.
pub open spec fn items_taken<T>(calls: Seq<QueueCall<T>>) -> nat
    decreases calls.len(),
{
    if calls.len() == 0 {
        0
    } else {
        items_taken(calls.drop_last()) + match calls.last() {
            QueueCall::Next(Some(_)) => 1nat,
            QueueCall::Remove(_, Some(_)) => 1nat,
            QueueCall::RemoveAll(_, removed) => removed.len(),
            _ => 0nat,
        }
    }
}

/// A queue that starts empty holds, after any sequence of calls, as many
/// items as the calls added minus those that they handed back (so it is
/// empty exactly when both numbers are equal).
pub proof fn law_queue_len<T: PartialEq>(calls: Seq<QueueCall<T>>, states: Seq<Queue<T>>)
    requires
        states.len() == calls.len() + 1,
        states[0].entries_spec().len() == 0,
        forall|i: int| 0 <= i < calls.len() ==> queue_call_effect(states[i], #[trigger] calls[i], states[i + 1]),
    ensures
        states.last().entries_spec().len() + items_taken(calls) == items_added(calls),
    decreases calls.len(),
{
    if calls.len() > 0 {
        let n = calls.len() - 1;
        law_queue_len(calls.drop_last(), states.drop_last());
        assert(queue_call_effect(states[n], calls[n], states[n + 1]));
    }
}

} // verus!

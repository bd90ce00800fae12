//! A circular buffer with a fixed capacity, addressed by an ever growing index.

use vstd::prelude::*;
use vstd::pervasive::VecAdditionalExecFns;
use vstd::arithmetic::div_mod::{lemma_mod_add_multiples_vanish, lemma_mod_bound, lemma_mod_equivalence, lemma_small_mod};

verus! {

/// An index that lies outside of the window of a `RingBuffer`.
#[derive(Debug, Clone, Copy, PartialEq, Eq, Structural)]
pub enum Error {
    /// The index lies before the first index of the buffer.
    RingbufferUnderflow(u64),
    /// The index lies behind the last index of the buffer.
    RingbufferOverflow(u64),
}

/// A circular buffer with a fixed capacity.
///
/// It holds the items for the indices `start() .. end()`; each
/// `increment` drops the item at `start()` and adds one at the end.
#[derive(Debug)]
pub struct RingBuffer<T> {
    data: Vec<T>,
    start: u64,
}

/// Distinct logical indices of one window fall into distinct slots.
proof fn lemma_slot_distinct(s: int, j: int, n: int)
    requires
        0 <= s,
        0 < j < n,
    ensures
        (s + j) % n != s % n,
{
    lemma_mod_equivalence(s + j, s, n);
    lemma_small_mod(j as nat, n as nat);
    assert((s + j) - s == j);
}

/// Two distinct offsets of one window fall into distinct slots.
proof fn lemma_slots_distinct(s: int, a: int, b: int, n: int)
    requires
        0 <= s,
        0 <= a < n,
        0 <= b < n,
        a != b,
    ensures
        (s + a) % n != (s + b) % n,
{
    if a < b {
        lemma_slot_distinct(s + a, b - a, n);
        assert(s + a + (b - a) == s + b);
    } else {
        lemma_slot_distinct(s + b, a - b, n);
        assert(s + b + (a - b) == s + a);
    }
}

/// The items of a window over `data` that starts at index `start`.
pub closed spec fn window<T>(data: Seq<T>, start: int) -> Seq<T> {
    Seq::new(data.len(), |k: int| data[(start + k) % (data.len() as int)])
}

/// Writing one slot changes exactly the item of that slot's index.
proof fn lemma_window_update<T>(data: Seq<T>, start: int, k0: int, v: T)
    requires
        0 <= start,
        0 <= k0 < data.len(),
    ensures
        window(data.update((start + k0) % (data.len() as int), v), start) == window(data, start).update(k0, v),
{
    let n = data.len() as int;
    let slot = (start + k0) % n;
    lemma_mod_bound(start + k0, n);
    assert forall|k: int| 0 <= k < n implies #[trigger] window(data.update(slot, v), start)[k] == window(
        data,
        start,
    ).update(k0, v)[k] by {
        lemma_mod_bound(start + k, n);
        if k != k0 {
            lemma_slots_distinct(start, k, k0, n);
        }
    }
    assert(window(data.update(slot, v), start) =~= window(data, start).update(k0, v));
}

/// Moving a window one index forward drops its first item and shows the
/// slot of that item again at the end.
proof fn lemma_window_advance<T>(data: Seq<T>, start: int)
    requires
        0 <= start,
        0 < data.len(),
    ensures
        window(data, start + 1) == window(data, start).drop_first().push(window(data, start)[0]),
{
    let n = data.len() as int;
    let w = window(data, start);
    assert forall|k: int| 0 <= k < n implies #[trigger] window(data, start + 1)[k] == w.drop_first().push(
        w[0],
    )[k] by {
        if k == n - 1 {
            lemma_slot_wrap(start, n);
            assert(start + 1 + k == start + n);
        } else {
            assert(start + 1 + k == start + (k + 1));
        }
    }
    assert(window(data, start + 1) =~= w.drop_first().push(w[0]));
}

/// Moving a window one index backward shows its last item first.
proof fn lemma_window_retreat<T>(data: Seq<T>, start: int)
    requires
        1 <= start,
        0 < data.len(),
    ensures
        window(data, start - 1) == seq![window(data, start)[data.len() - 1]] + window(data, start).drop_last(),
{
    let n = data.len() as int;
    let w = window(data, start);
    assert forall|k: int| 0 <= k < n implies #[trigger] window(data, start - 1)[k] == (seq![w[n - 1]]
        + w.drop_last())[k] by {
        if k == 0 {
            lemma_slot_wrap(start - 1, n);
            assert(start - 1 + n == start + (n - 1));
        } else {
            assert(start - 1 + k == start + (k - 1));
        }
    }
    assert(window(data, start - 1) =~= seq![w[n - 1]] + w.drop_last());
}

/// The index one window behind `s` falls into the slot of `s`.
proof fn lemma_slot_wrap(s: int, n: int)
    requires
        0 <= s,
        0 < n,
    ensures
        (s + n) % n == s % n,
{
    lemma_mod_add_multiples_vanish(s, n);
}

impl<T> RingBuffer<T> {
    /// The index of the first item.
    pub closed spec fn first(&self) -> int {
        self.start as int
    }

    /// The items in index order: `items()[k]` belongs to the index `first() + k`.
    pub closed spec fn items(&self) -> Seq<T> {
        window(self.data@, self.start as int)
    }

    /// The first index is a `u64`, and the last index of the window fits
    /// into a `u64` too.
    pub open spec fn wf(&self) -> bool {
        &&& 0 <= self.first()
        &&& self.first() + self.items().len() <= u64::MAX
    }

    /// Create a new `RingBuffer` with `capacity` items cloned from
    /// `default_item`, starting at index `start`.
    pub fn new(default_item: T, capacity: usize, start: u64) -> (buffer: Self)
        where
            T: Clone,
        requires
            start + capacity <= u64::MAX,
        ensures
            buffer.wf(),
            buffer.first() == start,
            buffer.items().len() == capacity,
            forall|k: int| 0 <= k < capacity ==> cloned(default_item, #[trigger] buffer.items()[k]),
    {
        let buffer = RingBuffer { data: vec![default_item; capacity], start };
        proof {
            assert forall|k: int| 0 <= k < capacity implies cloned(default_item, #[trigger] buffer.items()[k]) by {
                lemma_mod_bound(start + k, capacity as int);
            }
        }
        buffer
    }

    /// Get the current start index.
    pub fn start(&self) -> (start: u64)
        ensures
            start == self.first(),
    {
        self.start
    }

    /// Get the current end index (one behind the last index).
    pub fn end(&self) -> (end: u64)
        requires
            self.wf(),
        ensures
            end == self.first() + self.items().len(),
    {
        self.start + self.data.len() as u64
    }

    /// Map an index of the window to its slot in `data`.
    fn index2index_unchecked(&self, index: u64) -> (slot: usize)
        requires
            self.data.len() > 0,
        ensures
            slot < self.data.len(),
            slot == index as int % (self.data.len() as int),
    {
        let len = self.data.len() as u64;
        proof {
            lemma_mod_bound(index as int, len as int);
        }
        (index % len) as usize
    }

    /// Map an index to its slot, or report on which side of the window it lies.
    fn index2index(&self, index: u64) -> (res: Result<usize, Error>)
        requires
            self.wf(),
        ensures
            index < self.first() ==> res == Err::<usize, Error>(Error::RingbufferUnderflow(index)),
            index >= self.first() + self.items().len() ==> res == Err::<usize, Error>(
                Error::RingbufferOverflow(index),
            ),
            self.first() <= index < self.first() + self.items().len() ==> (res matches Ok(slot) && slot
                < self.data.len() && slot == index as int % (self.data.len() as int) && self.data@[slot as int] == self.items()[index - self.first()]),
    {
        if index < self.start() {
            Err(Error::RingbufferUnderflow(index))
        } else if index < self.end() {
            let slot = self.index2index_unchecked(index);
            assert(self.start + (index - self.start) == index);
            Ok(slot)
        } else {
            Err(Error::RingbufferOverflow(index))
        }
    }

    /// Return a mutable reference to the item at the start index.
    fn first_mut(&mut self) -> (first: &mut T)
        requires
            old(self).wf(),
            old(self).items().len() > 0,
        ensures
            *first == old(self).items()[0],
            final(self).first() == old(self).first(),
            final(self).items() == old(self).items().update(0, *final(first)),
    {
        let slot = self.index2index_unchecked(self.start);
        proof {
            assert(self.start + 0 == self.start);
            assert forall|v: T| #[trigger] window(self.data@.update(slot as int, v), self.start as int)
                == self.items().update(0, v) by {
                lemma_window_update(self.data@, self.start as int, 0, v);
            }
        }
        &mut self.data[slot]
    }

    /// Return a reference to the item at `index`.
    pub fn get(&self, index: u64) -> (res: Result<&T, Error>)
        requires
            self.wf(),
        ensures
            index < self.first() ==> res == Err::<&T, Error>(Error::RingbufferUnderflow(index)),
            index >= self.first() + self.items().len() ==> res == Err::<&T, Error>(
                Error::RingbufferOverflow(index),
            ),
            self.first() <= index < self.first() + self.items().len() ==> res == Ok::<&T, Error>(
                &self.items()[index - self.first()],
            ),
    {
        let slot = self.index2index(index)?;
        Ok(&self.data[slot])
    }

    /// Return a mutable reference to the item at `index`.
    pub fn get_mut(&mut self, index: u64) -> (res: Result<&mut T, Error>)
        requires
            old(self).wf(),
        ensures
            index < old(self).first() ==> res == Err::<&mut T, Error>(Error::RingbufferUnderflow(index)),
            index >= old(self).first() + old(self).items().len() ==> res == Err::<&mut T, Error>(
                Error::RingbufferOverflow(index),
            ),
            !(old(self).first() <= index < old(self).first() + old(self).items().len()) ==> *final(self) == *old(self),
            old(self).first() <= index < old(self).first() + old(self).items().len() ==> (res matches Ok(r) && *r
                == old(self).items()[index - old(self).first()] && final(self).first() == old(self).first()
                && final(self).items() == old(self).items().update(index - old(self).first(), *final(r))),
    {
        let slot = self.index2index(index)?;
        proof {
            let k0 = index - self.start;
            assert(self.start + k0 == index);
            assert(slot == (self.start + k0) % (self.data.len() as int));
            assert forall|v: T| #[trigger] window(self.data@.update(slot as int, v), self.start as int)
                == self.items().update(k0, v) by {
                lemma_window_update(self.data@, self.start as int, k0, v);
            }
        }
        Ok(&mut self.data[slot])
    }

    /// Increment the start index: the first item is handed back and
    /// `new_item` becomes the item of the new last index.
    pub fn increment(&mut self, new_item: T) -> (old_item: T)
        requires
            old(self).wf(),
            old(self).items().len() > 0,
            old(self).first() + old(self).items().len() < u64::MAX,
        ensures
            final(self).wf(),
            final(self).first() == old(self).first() + 1,
            final(self).items() == old(self).items().drop_first().push(new_item),
            old_item == old(self).items()[0],
    {
        let mut item = new_item;
        std::mem::swap(self.first_mut(), &mut item);
        proof {
            assert(self.items().len() == self.data@.len());
            lemma_window_advance(self.data@, self.start as int);
        }
        self.start = self.start + 1;
        item
    }

    /// Increment the start index to `index`, filling the new indices with
    /// clones of `new_item`.
    ///
    /// This does nothing if `start() >= index`.
    pub fn increment_to(&mut self, index: u64, new_item: T)
        where
            T: Clone,
        requires
            old(self).wf(),
            index > old(self).first() ==> old(self).items().len() > 0 && index + old(self).items().len()
                <= u64::MAX,
        ensures
            final(self).wf(),
            index <= old(self).first() ==> *final(self) == *old(self),
            index > old(self).first() ==> final(self).first() == index,
            final(self).items().len() == old(self).items().len(),
            forall|k: int|
                0 <= k < old(self).items().len() ==> {
                    let shift = final(self).first() - old(self).first();
                    if k + shift < old(self).items().len() {
                        #[trigger] final(self).items()[k] == old(self).items()[k + shift]
                    } else {
                        cloned(new_item, final(self).items()[k])
                    }
                },
    {
        let ghost first = self.first();
        let ghost items = self.items();
        let ghost n = items.len() as int;
        let ghost unchanged = *self;
        while self.start < index
            invariant
                self.wf(),
                first <= self.first(),
                index > first ==> self.first() <= index && n > 0 && index + n <= u64::MAX,
                index <= first ==> *self == unchanged,
                self.items().len() == n,
                forall|k: int|
                    0 <= k < n ==> {
                        let shift = self.first() - first;
                        if k + shift < n {
                            #[trigger] self.items()[k] == items[k + shift]
                        } else {
                            cloned(new_item, self.items()[k])
                        }
                    },
            decreases index - self.first(),
        {
            let ghost before = self.items();
            let ghost shift = self.first() - first;
            let item = new_item.clone();
            self.increment(item);
            assert forall|k: int| 0 <= k < n implies {
                let shift = self.first() - first;
                if k + shift < n {
                    #[trigger] self.items()[k] == items[k + shift]
                } else {
                    cloned(new_item, self.items()[k])
                }
            } by {
                if k < n - 1 {
                    assert(self.items()[k] == before[k + 1]);
                } else {
                    assert(self.items()[k] == item);
                }
            }
        }
    }

    /// Decrement the start index: the item of the last index is handed back
    /// and `new_item` becomes the item of the new start index.
    pub fn decrement(&mut self, new_item: T) -> (old_item: T)
        requires
            old(self).wf(),
            old(self).items().len() > 0,
            old(self).first() > 0,
        ensures
            final(self).wf(),
            final(self).first() == old(self).first() - 1,
            final(self).items() == seq![new_item] + old(self).items().drop_last(),
            old_item == old(self).items().last(),
    {
        proof {
            lemma_window_retreat(self.data@, self.start as int);
        }
        self.start = self.start - 1;
        let mut item = new_item;
        std::mem::swap(self.first_mut(), &mut item);
        item
    }
}

/// Decrementing right after an increment, with the item that the increment
/// handed back, restores the items, and hands back the item that the
/// increment added.
pub proof fn law_decrement_undoes_increment<T>(buffer: RingBuffer<T>, new_item: T)
    requires
        buffer.wf(),
        buffer.items().len() > 0,
    ensures
        ({
            let incremented = buffer.items().drop_first().push(new_item);
            &&& seq![buffer.items()[0]] + incremented.drop_last() == buffer.items()
            &&& incremented.last() == new_item
        }),
{
    let incremented = buffer.items().drop_first().push(new_item);
    assert(incremented.drop_last() =~= buffer.items().drop_first());
    assert(seq![buffer.items()[0]] + buffer.items().drop_first() =~= buffer.items());
}


/// A call on a `RingBuffer` that changes it.
pub enum RingCall<T> {
    /// `increment(new_item)`.
    Increment(T),
    /// `increment_to(index, new_item)`.
    IncrementTo(u64, T),
    /// `decrement(new_item)`.
    Decrement(T),
    /// A write of `value` through `get_mut(index)`.
    Write(u64, T),
}

/// Whether `call` may take the buffer from `before` to `after`, as the
/// contract of the called function states.
pub open spec fn ring_call_effect<T>(before: RingBuffer<T>, call: RingCall<T>, after: RingBuffer<T>) -> bool {
    let n = before.items().len();
    match call {
        RingCall::Increment(new_item) => {
            &&& n > 0
            &&& after.wf()
            &&& after.first() == before.first() + 1
            &&& after.items() == before.items().drop_first().push(new_item)
        },
        RingCall::IncrementTo(index, _) => {
            &&& after.wf()
            &&& after.items().len() == n
            &&& index <= before.first() ==> after == before
            &&& index > before.first() ==> after.first() == index
        },
        RingCall::Decrement(new_item) => {
            &&& n > 0
            &&& after.wf()
            &&& after.first() == before.first() - 1
            &&& after.items() == seq![new_item] + before.items().drop_last()
        },
        RingCall::Write(index, value) => if before.first() <= index < before.first() + n {
            after.first() == before.first() && after.items() == before.items().update(index - before.first(), value)
        } else {
            after == before
        },
    }
}

/// After any sequence of calls on a buffer made by `new` with `capacity`
/// items, the window `start() .. end()` still holds exactly `capacity`
/// items: `end()` is `start()` plus `capacity` after every call.
pub proof fn law_ring_window_size<T>(capacity: nat, calls: Seq<RingCall<T>>, states: Seq<RingBuffer<T>>)
    requires
        states.len() == calls.len() + 1,
        states[0].wf(),
        states[0].items().len() == capacity,
        forall|i: int| 0 <= i < calls.len() ==> ring_call_effect(states[i], #[trigger] calls[i], states[i + 1]),
    ensures
        forall|i: int|
            0 <= i < states.len() ==> (#[trigger] states[i]).wf() && states[i].items().len() == capacity
                && states[i].first() + capacity <= u64::MAX,
    decreases calls.len(),
{
    if calls.len() > 0 {
        let n = calls.len() - 1;
        law_ring_window_size(capacity, calls.drop_last(), states.drop_last());
        assert(states.drop_last()[n] == states[n]);
        assert(ring_call_effect(states[n], calls[n], states[n + 1]));
        assert forall|i: int| 0 <= i < states.len() implies (#[trigger] states[i]).wf() && states[i].items().len()
            == capacity && states[i].first() + capacity <= u64::MAX by {
            if i < n + 1 {
                assert(states.drop_last()[i] == states[i]);
            }
        }
    }
}

} // verus!

//! A queue of vectors that hands out their items one by one.

use vstd::prelude::*;
use std::collections::VecDeque;

verus! {

/// The items of `v` in reverse order, as a new vector.
pub(crate) fn reversed<T>(v: Vec<T>) -> (r: Vec<T>)
    ensures
        r@ == v@.reverse(),
{
    let mut v = v;
    let ghost initial = v@;
    let mut r: Vec<T> = Vec::new();
    while v.len() > 0
        invariant
            r@ == initial.reverse().take(r@.len() as int),
            v@ == initial.take(v@.len() as int),
            r@.len() + v@.len() == initial.len(),
        decreases v@.len(),
    {
        let ghost before = v@;
        let x = v.pop().unwrap();
        r.push(x);
        proof {
            assert(v@ =~= initial.take(v@.len() as int));
            assert(r@ =~= initial.reverse().take(r@.len() as int));
        }
    }
    proof {
        assert(r@ =~= initial.reverse());
    }
    r
}

/// Flattening a sequence with one more element appends that element.
proof fn lemma_flatten_push<T>(s: Seq<Seq<T>>, x: Seq<T>)
    ensures
        s.push(x).flatten() == s.flatten() + x,
{
    s.push(x).lemma_flatten_and_flatten_alt_are_equivalent();
    s.lemma_flatten_and_flatten_alt_are_equivalent();
    assert(s.push(x).drop_last() =~= s);
}

/// A queue of vectors whose items are handed out in order, one by one.
pub struct FlattenVec<T> {
    /// The rest of the vector that is handed out now, last item first.
    current: Vec<T>,
    /// The vectors that follow, in order.
    data: VecDeque<Vec<T>>,
}

impl<T> FlattenVec<T> {
    /// The vectors that follow the current one.
    closed spec fn pending(&self) -> Seq<Seq<T>> {
        self.data@.map_values(|v: Vec<T>| v@)
    }
}

impl<T> View for FlattenVec<T> {
    type V = Seq<T>;

    /// All items that are still to come, in order.
    closed spec fn view(&self) -> Seq<T> {
        self.current@.reverse() + self.pending().flatten()
    }
}

impl<T> Default for FlattenVec<T> {
    fn default() -> (v: Self)
        ensures
            v@ == Seq::<T>::empty(),
    {
        Self::new()
    }
}

impl<T> FlattenVec<T> {
    /// Create an empty `FlattenVec`.
    pub fn new() -> (v: Self)
        ensures
            v@ == Seq::<T>::empty(),
    {
        let v = FlattenVec { current: Vec::new(), data: VecDeque::new() };
        proof {
            assert(v.pending() =~= Seq::<Seq<T>>::empty());
            assert(v@ =~= Seq::<T>::empty());
        }
        v
    }

    /// Append the items of `vec`.
    pub fn push(&mut self, vec: Vec<T>)
        ensures
            final(self)@ == old(self)@ + vec@,
    {
        let ghost items = vec@;
        self.data.push_back(vec);
        proof {
            assert(self.pending() =~= old(self).pending().push(items));
            lemma_flatten_push(old(self).pending(), items);
            assert(self@ =~= old(self)@ + items);
        }
    }

    /// The number of items still to come.
    pub fn len(&self) -> (len: usize)
        requires
            self@.len() <= usize::MAX,
        ensures
            len == self@.len(),
    {
        let ghost p = self.pending();
        let mut sum: usize = self.current.len();
        let mut i: usize = 0;
        while i < self.data.len()
            invariant
                p == self.pending(),
                self@.len() <= usize::MAX,
                i <= p.len(),
                sum == self.current@.len() + p.take(i as int).flatten().len(),
            decreases p.len() - i,
        {
            proof {
                assert(p.take(i + 1) =~= p.take(i as int).push(p[i as int]));
                lemma_flatten_push(p.take(i as int), p[i as int]);
                assert(p =~= p.take(i + 1) + p.skip(i + 1));
                vstd::seq_lib::lemma_flatten_concat(p.take(i + 1), p.skip(i + 1));
            }
            sum = sum + self.data[i].len();
            i = i + 1;
        }
        proof {
            assert(p.take(i as int) =~= p);
        }
        sum
    }

    /// Hand out the next item, if any.
    pub fn next(&mut self) -> (item: Option<T>)
        ensures
            old(self)@.len() == 0 ==> item.is_none() && final(self)@ == old(self)@,
            old(self)@.len() > 0 ==> item == Some(old(self)@[0]) && final(self)@ == old(self)@.drop_first(),
    {
        loop
            invariant
                self@ == old(self)@,
            decreases self.data@.len(),
        {
            if self.current.len() > 0 {
                let ghost rest = self.pending().flatten();
                let ghost cur = self.current@;
                let x = self.current.pop().unwrap();
                proof {
                    assert(cur.reverse()[0] == x);
                    assert(self.current@.reverse() =~= cur.reverse().drop_first());
                    assert(self@ =~= old(self)@.drop_first());
                }
                return Some(x);
            }
            let ghost p = self.pending();
            proof {
                assert(self.current@.reverse() =~= Seq::<T>::empty());
            }
            match self.data.pop_front() {
                Some(vec) => {
                    let ghost v = vec@;
                    self.current = reversed(vec);
                    proof {
                        assert(v == p[0]);
                        assert(v.reverse().reverse() =~= v);
                        assert(self.current@.reverse() =~= p[0]);
                        assert(self.pending() =~= p.drop_first());
                        assert(self@ =~= old(self)@);
                    }
                },
                None => {
                    proof {
                        assert(self.pending() =~= Seq::<Seq<T>>::empty());
                    }
                    return None;
                },
            }
        }
    }
}


/// A call on a `FlattenVec` that changes it.
pub enum FlattenCall<T> {
    /// `push(vec)`, with the items of `vec`.
    Push(Seq<T>),
    /// `next()`, with its result.
    Next(Option<T>),
}

/// Whether `call` may take the vector from `before` to `after`, as the
/// contract of the called function states.
pub open spec fn flatten_call_effect<T>(before: Seq<T>, call: FlattenCall<T>, after: Seq<T>) -> bool {
    match call {
        FlattenCall::Push(items) => after == before + items,
        FlattenCall::Next(item) => if before.len() == 0 {
            item.is_none() && after == before
        } else {
            item == Some(before[0]) && after == before.drop_first()
        },
    }
}

/// The items that `calls` pushed, in order.
pub open spec fn pushed<T>(calls: Seq<FlattenCall<T>>) -> Seq<T>
    decreases calls.len(),
{
    if calls.len() == 0 {
        Seq::empty()
    } else {
        pushed(calls.drop_last()) + match calls.last() {
            FlattenCall::Push(items) => items,
            FlattenCall::Next(_) => Seq::empty(),
        }
    }
}

/// The items that the `next` calls among `calls` handed out, in order.
pub open spec fn handed_out<T>(calls: Seq<FlattenCall<T>>) -> Seq<T>
    decreases calls.len(),
{
    if calls.len() == 0 {
        Seq::empty()
    } else {
        handed_out(calls.drop_last()) + match calls.last() {
            FlattenCall::Next(Some(item)) => seq![item],
            _ => Seq::empty(),
        }
    }
}

/// For a `FlattenVec` that starts empty, after any sequence of `push` and
/// `next` calls the items handed out, followed by those still to come (whose
/// number `len()` gives), are the pushed vectors one after another: no item
/// is lost, repeated or reordered, and an empty vector does not end the
/// iteration early.
pub proof fn law_flatten_order<T>(calls: Seq<FlattenCall<T>>, states: Seq<FlattenVec<T>>)
    requires
        states.len() == calls.len() + 1,
        states[0]@.len() == 0,
        forall|i: int| 0 <= i < calls.len() ==> flatten_call_effect(states[i]@, #[trigger] calls[i], states[i + 1]@),
    ensures
        handed_out(calls) + states.last()@ == pushed(calls),
        states.last()@.len() == pushed(calls).len() - handed_out(calls).len(),
    decreases calls.len(),
{
    if calls.len() > 0 {
        let n = calls.len() - 1;
        law_flatten_order(calls.drop_last(), states.drop_last());
        assert(states.drop_last().last() == states[n]);
        assert(flatten_call_effect(states[n]@, calls[n], states[n + 1]@));
    }
    assert(handed_out(calls) + states.last()@ =~= pushed(calls));
}

} // verus!

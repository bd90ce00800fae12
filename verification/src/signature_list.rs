//! Lists of signatures collected for a consensus message.

use vstd::prelude::*;
use vstd::pervasive::VecAdditionalExecFns;
use crate::types::{PeerId, Signature};

verus! {

/// Whether no peer occurs twice in `items`.
pub open spec fn signers_unique(items: Seq<(PeerId, Signature)>) -> bool {
    forall|i: int, j: int| 0 <= i < j < items.len() ==> items[i].0 != items[j].0
}

/// The position of the first signature of `peer` in `items` (which must hold one).
pub open spec fn first_signature_of(items: Seq<(PeerId, Signature)>, peer: PeerId) -> int {
    choose|i: int|
        0 <= i < items.len() && items[i].0 == peer && forall|j: int| 0 <= j < i ==> items[j].0 != peer
}

/// The signatures of several peers over one message.
#[derive(Debug)]
pub struct SignatureList(pub Vec<(PeerId, Signature)>);

impl View for SignatureList {
    type V = Seq<(PeerId, Signature)>;

    open spec fn view(&self) -> Seq<(PeerId, Signature)> {
        self.0@
    }
}

impl Clone for SignatureList {
    fn clone(&self) -> (copy: Self)
        ensures
            copy@ == self@,
    {
        let mut items: Vec<(PeerId, Signature)> = Vec::new();
        let mut i: usize = 0;
        while i < self.0.len()
            invariant
                i <= self@.len(),
                items@ == self@.take(i as int),
            decreases self@.len() - i,
        {
            items.push(self.0[i]);
            i = i + 1;
            proof {
                assert(items@ =~= self@.take(i as int));
            }
        }
        proof {
            assert(self@.take(i as int) =~= self@);
        }
        SignatureList(items)
    }
}

impl Default for SignatureList {
    fn default() -> (list: Self)
        ensures
            list@ == Seq::<(PeerId, Signature)>::empty(),
    {
        SignatureList(Vec::new())
    }
}

impl SignatureList {
    /// The number of signatures.
    pub fn len(&self) -> (len: usize)
        ensures
            len == self@.len(),
    {
        self.0.len()
    }

    /// Append the signature of a peer.
    pub fn push(&mut self, item: (PeerId, Signature))
        ensures
            final(self)@ == old(self)@.push(item),
    {
        self.0.push(item);
    }

    /// The signature at position `index`.
    pub fn get(&self, index: usize) -> (item: (PeerId, Signature))
        requires
            index < self@.len(),
        ensures
            item == self@[index as int],
    {
        self.0[index]
    }

    /// Whether `peer` has signed.
    pub fn contains(&self, peer: &PeerId) -> (found: bool)
        ensures
            found == exists|i: int| 0 <= i < self@.len() && self@[i].0 == *peer,
    {
        let mut i: usize = 0;
        while i < self.0.len()
            invariant
                i <= self@.len(),
                forall|j: int| 0 <= j < i ==> self@[j].0 != *peer,
            decreases self@.len() - i,
        {
            if self.0[i].0 == *peer {
                return true;
            }
            i = i + 1;
        }
        false
    }

    /// Store the signature of `peer`, replacing an earlier one of the same peer.
    ///
    /// Hands back the earlier signature, if any.
    pub fn insert(&mut self, peer: PeerId, signature: Signature) -> (previous: Option<Signature>)
        ensures
            (exists|i: int| 0 <= i < old(self)@.len() && old(self)@[i].0 == peer) ==> {
                let i = first_signature_of(old(self)@, peer);
                &&& previous == Some(old(self)@[i].1)
                &&& final(self)@ == old(self)@.update(i, (peer, signature))
            },
            !(exists|i: int| 0 <= i < old(self)@.len() && old(self)@[i].0 == peer) ==> previous.is_none()
                && final(self)@ == old(self)@.push((peer, signature)),
    {
        let mut i: usize = 0;
        while i < self.0.len()
            invariant
                i <= self@.len(),
                self@ == old(self)@,
                forall|j: int| 0 <= j < i ==> self@[j].0 != peer,
            decreases self@.len() - i,
        {
            if self.0[i].0 == peer {
                let previous = self.0[i].1;
                proof {
                    let k = first_signature_of(old(self)@, peer);
                    assert(0 <= i < old(self)@.len() && old(self)@[i as int].0 == peer && forall|j: int|
                        0 <= j < i ==> old(self)@[j].0 != peer);
                    assert(k == i) by {
                        if k < i {
                            assert(self@[k].0 != peer);
                        } else if k > i {
                            assert(old(self)@[i as int].0 != peer);
                        }
                    }
                }
                self.0.set(i, (peer, signature));
                return Some(previous);
            }
            i = i + 1;
        }
        self.0.push((peer, signature));
        None
    }

    /// Whether every peer signed at most once.
    pub fn is_unique(&self) -> (unique: bool)
        ensures
            unique == signers_unique(self@),
    {
        let n = self.0.len();
        let mut j: usize = 0;
        while j < n
            invariant
                n == self@.len(),
                j <= n,
                forall|a: int, b: int| 0 <= a < b < j ==> self@[a].0 != self@[b].0,
            decreases n - j,
        {
            let mut i: usize = 0;
            while i < j
                invariant
                    n == self@.len(),
                    i <= j < n,
                    forall|a: int| 0 <= a < i ==> self@[a].0 != self@[j as int].0,
                decreases j - i,
            {
                if self.0[i].0 == self.0[j].0 {
                    return false;
                }
                i = i + 1;
            }
            j = j + 1;
        }
        true
    }
}

} // verus!

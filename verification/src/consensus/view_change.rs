//! The view change: the votes of the peers for a new leader term.
//!
//! A peer that finds the leader faulty votes for the next leader term. Once
//! `f + 1` peers voted for a term, the others join in; once a supermajority
//! voted, the term changes and its leader has to announce itself with a
//! `NewView` message in time.

use vstd::prelude::*;
use std::time::Instant;
use crate::queue::instant_now;
use crate::quorum::{nonfaulty, nonfaulty_count, quorum_sizes_fit, supermajority, supermajority_reached};
use crate::ring_buffer::RingBuffer;
use crate::signature_list::{SignatureList, first_signature_of, signers_unique};
use crate::types::{BlockNumber, LeaderTerm, PeerId, Signature};
use crate::world_state::WorldState;
use super::consensus_core::{leader, leader_of};
use super::error::Error;
use super::message::NewView;

verus! {

/// The number of leader terms for which votes are collected in advance.
pub const RING_BUFFER_SIZE: usize = 64;

/// The time a new leader has to send its `NewView` message, in nanoseconds.
pub const NEW_VIEW_TIMEOUT_NANOS: u128 = 1_000_000_000;

/// The state of the view change.
#[derive(Debug)]
pub struct State {
    /// The leader term that a supermajority voted for last.
    pub leader_term: LeaderTerm,
    /// Since when the `NewView` message of the current leader is awaited.
    pub new_view_time: Option<Instant>,
    /// The votes for the current leader term, until its leader sends them
    /// with its `NewView` message.
    pub current_signatures: Option<SignatureList>,
    /// The votes for the coming leader terms.
    pub future_signatures: RingBuffer<SignatureList>,
}

/// The votes collected in `buffer` for `term`: none outside its window.
pub open spec fn votes_for(buffer: RingBuffer<SignatureList>, term: int) -> Seq<(PeerId, Signature)> {
    if buffer.first() <= term < buffer.first() + buffer.items().len() {
        buffer.items()[term - buffer.first()]@
    } else {
        Seq::empty()
    }
}

/// Whether `peer` voted in `votes`.
pub open spec fn has_voted(votes: Seq<(PeerId, Signature)>, peer: PeerId) -> bool {
    exists|i: int| 0 <= i < votes.len() && votes[i].0 == peer
}

/// The votes after `peer` voted with `signature`: a second vote of a peer
/// replaces its first one.
pub open spec fn with_vote(votes: Seq<(PeerId, Signature)>, peer: PeerId, signature: Signature) -> Seq<(PeerId, Signature)> {
    if has_voted(votes, peer) {
        votes.update(first_signature_of(votes, peer), (peer, signature))
    } else {
        votes.push((peer, signature))
    }
}

/// `after` holds the votes of `before`, but `votes` for `term`.
pub open spec fn votes_replaced(
    before: RingBuffer<SignatureList>,
    after: RingBuffer<SignatureList>,
    term: int,
    votes: Seq<(PeerId, Signature)>,
) -> bool {
    &&& after.wf()
    &&& after.first() == before.first()
    &&& after.items().len() == before.items().len()
    &&& forall|t: int| #[trigger] votes_for(after, t) == if t == term { votes } else { votes_for(before, t) }
}

/// Whether the vote of `peer` for `term` lies in the window of `buffer` and
/// is the one that makes a supermajority of `peers` peers.
pub open spec fn completes_supermajority(
    buffer: RingBuffer<SignatureList>,
    peers: int,
    term: int,
    peer: PeerId,
) -> bool {
    &&& buffer.first() <= term < buffer.first() + buffer.items().len()
    &&& !has_voted(votes_for(buffer, term), peer)
    &&& votes_for(buffer, term).len() + 1 >= supermajority(peers)
}

/// What a peer does with a `ViewChange` vote.
#[derive(Debug)]
pub struct ViewChangeOutcome {
    /// The answer to the voter.
    pub response: Result<(), Error>,
    /// Whether `f + 1` peers voted for the term just now, so that this peer
    /// votes for it too.
    pub broadcast_view_change: bool,
    /// Whether a supermajority voted for the term just now: the term changed,
    /// its leader is to start and the `NewView` timeout begins.
    pub reached_supermajority: bool,
}

impl State {
    /// The window of votes lies just behind the current leader term (before
    /// the first change, it starts at term zero).
    pub open spec fn wf(&self) -> bool {
        &&& self.future_signatures.wf()
        &&& self.future_signatures.items().len() > 0
        &&& (self.future_signatures.first() == self.leader_term.0 + 1 || (self.future_signatures.first() == 0
            && self.leader_term.0 == 0))
    }

    /// A view change state that collects votes for `size` leader terms.
    pub fn new(size: usize) -> (state: Self)
        requires
            size > 0,
        ensures
            state.wf(),
            state.leader_term.0 == 0,
            state.new_view_time.is_none(),
            state.current_signatures.is_none(),
            state.future_signatures.first() == 0,
            state.future_signatures.items().len() == size,
            forall|t: int| #[trigger] votes_for(state.future_signatures, t) == Seq::<(PeerId, Signature)>::empty(),
    {
        let empty = SignatureList::default();
        let ghost empty_votes = empty;
        let future_signatures = RingBuffer::new(empty, size, 0);
        proof {
            assert forall|t: int| #[trigger] votes_for(future_signatures, t) == Seq::<(PeerId, Signature)>::empty() by {
                if 0 <= t < size {
                    assert(cloned(empty_votes, future_signatures.items()[t]));
                }
            }
        }
        State { leader_term: LeaderTerm::default(), new_view_time: None, current_signatures: None, future_signatures }
    }

    /// A supermajority voted for `new_leader_term`: change to it, keep its
    /// votes for the `NewView` message and start waiting for that message.
    ///
    /// The term must lie ahead of the current one.
    pub fn did_reach_supermajority(&mut self, new_leader_term: LeaderTerm)
        requires
            old(self).wf(),
            new_leader_term.0 > old(self).leader_term.0,
            new_leader_term.0 + old(self).future_signatures.items().len() < u64::MAX,
        ensures
            final(self).wf(),
            final(self).leader_term == new_leader_term,
            final(self).new_view_time.is_some(),
            final(self).current_signatures matches Some(votes) && votes@ == votes_for(
                old(self).future_signatures,
                new_leader_term.0 as int,
            ),
            final(self).future_signatures.first() == new_leader_term.0 + 1,
            final(self).future_signatures.items().len() == old(self).future_signatures.items().len(),
            forall|t: int|
                t > new_leader_term.0 ==> #[trigger] votes_for(final(self).future_signatures, t) == votes_for(
                    old(self).future_signatures,
                    t,
                ),
    {
        let ghost before = self.future_signatures;
        let ghost n = before.items().len() as int;
        let ghost shift = new_leader_term.0 - before.first();
        let empty = SignatureList::default();
        let ghost empty_votes = empty;
        self.future_signatures.increment_to(new_leader_term.0, empty);
        let ghost middle = self.future_signatures;
        proof {
            assert(middle.first() == new_leader_term.0);
            assert forall|k: int| 0 <= k < n implies #[trigger] middle.items()[k]@ == votes_for(before, new_leader_term.0 + k) by {
                if k + shift < n {
                    assert(middle.items()[k] == before.items()[k + shift]);
                } else {
                    assert(cloned(empty_votes, middle.items()[k]));
                }
            }
        }
        self.leader_term = new_leader_term;
        self.new_view_time = Some(instant_now());
        let signatures = self.future_signatures.increment(SignatureList::default());
        proof {
            assert(signatures@ == votes_for(before, new_leader_term.0 as int)) by {
                assert(middle.items()[0]@ == votes_for(before, new_leader_term.0 + 0));
            }
            let after = self.future_signatures;
            assert forall|t: int| t > new_leader_term.0 implies #[trigger] votes_for(after, t) == votes_for(before, t) by {
                let j = t - new_leader_term.0 - 1;
                if j < n - 1 {
                    assert(after.items()[j] == middle.items()[j + 1]);
                    assert(middle.items()[j + 1]@ == votes_for(before, new_leader_term.0 + (j + 1)));
                    assert(new_leader_term.0 + (j + 1) == t);
                } else if j == n - 1 {
                    assert(after.items()[j]@ == Seq::<(PeerId, Signature)>::empty());
                }
            }
        }
        self.current_signatures = Some(signatures);
    }

    /// Take the `NewView` message for the current leader term, if this peer
    /// (`self_id`) leads it and the message was not taken yet.
    pub fn get_new_view_message(
        &mut self,
        world_state: &WorldState,
        self_id: PeerId,
        current_block_number: BlockNumber,
    ) -> (message: Option<NewView>)
        requires
            world_state.peers_view().len() > 0,
        ensures
            leader_of(world_state.peers_view(), old(self).leader_term) == self_id && old(self).current_signatures.is_some()
                ==> message == Some(NewView {
                leader_term: old(self).leader_term,
                view_change_signatures: old(self).current_signatures.unwrap(),
                current_block_number,
            }) && *final(self) == (State { current_signatures: None, ..*old(self) }),
            !(leader_of(world_state.peers_view(), old(self).leader_term) == self_id && old(self).current_signatures.is_some())
                ==> message.is_none() && *final(self) == *old(self),
    {
        let leader_term = self.leader_term;
        if leader(world_state, leader_term) == self_id {
            match self.current_signatures.take() {
                Some(view_change_signatures) => Some(NewView { leader_term, current_block_number, view_change_signatures }),
                None => None,
            }
        } else {
            None
        }
    }

    /// A `NewView` message for `leader_term` arrived: if it is the current
    /// term, it arrived in time and the timeout stops.
    pub fn new_view_received(&mut self, leader_term: LeaderTerm) -> (in_time: bool)
        ensures
            in_time == (old(self).leader_term == leader_term),
            in_time ==> *final(self) == (State { new_view_time: None, ..*old(self) }),
            !in_time ==> *final(self) == *old(self),
    {
        if self.leader_term == leader_term {
            self.new_view_time = None;
            true
        } else {
            false
        }
    }

    /// The leader term to vote for when the current leader seems faulty.
    pub fn next_leader_term(&self) -> (term: LeaderTerm)
        requires
            self.leader_term.0 < u64::MAX,
        ensures
            term.0 == self.leader_term.0 + 1,
    {
        self.leader_term.add(1)
    }
}

/// Handle the vote of `peer_id` (with its `signature` over the message) for
/// `new_leader_term`.
///
/// A vote outside the window of collected terms is refused. A second vote of
/// a peer replaces its first and changes nothing else. The vote that makes
/// `f + 1` votes asks this peer to vote too; the vote that makes a
/// supermajority changes the leader term.
///
/// The vote that completes a supermajority for term zero before any change
/// would lead back to the current term, which is a fault; it is left out, as
/// is the vote that completes a supermajority for a term so large that the
/// window behind it would pass `u64::MAX`.
pub fn handle_view_change(
    state: &mut State,
    world_state: &WorldState,
    peer_id: PeerId,
    signature: Signature,
    new_leader_term: LeaderTerm,
) -> (out: ViewChangeOutcome)
    requires
        old(state).wf(),
        old(state).future_signatures.first() <= new_leader_term.0 < old(state).future_signatures.first()
            + old(state).future_signatures.items().len() && !has_voted(
            votes_for(old(state).future_signatures, new_leader_term.0 as int),
            peer_id,
        ) ==> quorum_sizes_fit(world_state.peers_view().len() as int),
        completes_supermajority(
            old(state).future_signatures,
            world_state.peers_view().len() as int,
            new_leader_term.0 as int,
            peer_id,
        ) ==> new_leader_term.0 != 0 && new_leader_term.0 + old(state).future_signatures.items().len()
            < u64::MAX,
    ensures
        final(state).wf(),
        new_leader_term.0 < old(state).future_signatures.first() ==> out == (ViewChangeOutcome {
            response: Err(Error::LeaderTermTooSmall(new_leader_term)),
            broadcast_view_change: false,
            reached_supermajority: false,
        }) && *final(state) == *old(state),
        new_leader_term.0 >= old(state).future_signatures.first() + old(state).future_signatures.items().len() ==> out
            == (ViewChangeOutcome {
            response: Err(Error::LeaderTermTooBig(new_leader_term)),
            broadcast_view_change: false,
            reached_supermajority: false,
        }) && *final(state) == *old(state),
        old(state).future_signatures.first() <= new_leader_term.0 < old(state).future_signatures.first()
            + old(state).future_signatures.items().len() ==> {
            let votes = votes_for(old(state).future_signatures, new_leader_term.0 as int);
            let after = with_vote(votes, peer_id, signature);
            let peers = world_state.peers_view().len() as int;
            &&& out.response == Ok::<(), Error>(())
            &&& out.broadcast_view_change == (!has_voted(votes, peer_id) && after.len() == nonfaulty(peers))
            &&& out.reached_supermajority == (!has_voted(votes, peer_id) && after.len() >= supermajority(peers))
            &&& !out.reached_supermajority ==> {
                &&& final(state).leader_term == old(state).leader_term
                &&& final(state).new_view_time == old(state).new_view_time
                &&& final(state).current_signatures == old(state).current_signatures
                &&& votes_replaced(
                    old(state).future_signatures,
                    final(state).future_signatures,
                    new_leader_term.0 as int,
                    after,
                )
            }
            &&& out.reached_supermajority ==> {
                &&& final(state).leader_term == new_leader_term
                &&& final(state).new_view_time.is_some()
                &&& final(state).current_signatures matches Some(current) && current@ == after
                &&& final(state).future_signatures.first() == new_leader_term.0 + 1
                &&& forall|t: int|
                    t > new_leader_term.0 ==> #[trigger] votes_for(final(state).future_signatures, t) == votes_for(
                        old(state).future_signatures,
                        t,
                    )
            }
        },
{
    let peer_count = world_state.peer_count();
    let ghost before = state.future_signatures;
    let ghost index = new_leader_term.0 - before.first();
    let signatures = match state.future_signatures.get_mut(new_leader_term.0) {
        Ok(signatures) => signatures,
        Err(e) => {
            return ViewChangeOutcome { response: Err(Error::from(e)), broadcast_view_change: false, reached_supermajority: false };
        },
    };
    let ghost votes = signatures@;
    let previous = signatures.insert(peer_id, signature);
    let count = signatures.len();
    proof {
        assert(votes == votes_for(before, new_leader_term.0 as int));
    }
    let ghost after = signatures@;
    proof {
        assert(after == with_vote(votes, peer_id, signature));
        let middle = state.future_signatures;
        assert forall|t: int| #[trigger] votes_for(middle, t) == if t == new_leader_term.0 { after } else { votes_for(before, t) } by {
            if before.first() <= t < before.first() + before.items().len() && t != new_leader_term.0 {
                assert(middle.items()[t - before.first()] == before.items()[t - before.first()]);
            }
        }
    }
    if previous.is_some() {
        // A second vote of the same peer counts once.
        return ViewChangeOutcome { response: Ok(()), broadcast_view_change: false, reached_supermajority: false };
    }
    let broadcast_view_change = count == nonfaulty_count(peer_count);
    if supermajority_reached(count, peer_count) {
        state.did_reach_supermajority(new_leader_term);
        return ViewChangeOutcome { response: Ok(()), broadcast_view_change, reached_supermajority: true };
    }
    ViewChangeOutcome { response: Ok(()), broadcast_view_change, reached_supermajority: false }
}

/// How long the `NewView` message may still take after `elapsed_nanos`
/// nanoseconds of waiting; `None` once the timeout has passed.
pub fn new_view_time_left(elapsed_nanos: u128) -> (left: Option<u128>)
    ensures
        elapsed_nanos <= NEW_VIEW_TIMEOUT_NANOS ==> left == Some((NEW_VIEW_TIMEOUT_NANOS - elapsed_nanos) as u128),
        elapsed_nanos > NEW_VIEW_TIMEOUT_NANOS ==> left.is_none(),
{
    NEW_VIEW_TIMEOUT_NANOS.checked_sub(elapsed_nanos)
}

/// A vote counts once per peer: a peer's second vote replaces its first, a
/// new peer's vote adds one, and no peer appears twice among the votes.
pub proof fn law_votes_count_each_peer_once(votes: Seq<(PeerId, Signature)>, peer: PeerId, signature: Signature)
    requires
        signers_unique(votes),
    ensures
        signers_unique(with_vote(votes, peer, signature)),
        with_vote(votes, peer, signature).len() == votes.len() + if has_voted(votes, peer) {
            0int
        } else {
            1int
        },
        exists|i: int|
            0 <= i < with_vote(votes, peer, signature).len() && #[trigger] with_vote(votes, peer, signature)[i]
                == (peer, signature),
{
    let after = with_vote(votes, peer, signature);
    if has_voted(votes, peer) {
        let k = first_signature_of(votes, peer);
        assert(0 <= k < votes.len() && votes[k].0 == peer);
        assert(after[k] == (peer, signature));
        assert forall|i: int, j: int| 0 <= i < j < after.len() implies after[i].0 != after[j].0 by {
            assert(after[i].0 == votes[i].0);
            assert(after[j].0 == votes[j].0);
        }
    } else {
        assert(after[votes.len() as int] == (peer, signature));
        assert forall|i: int, j: int| 0 <= i < j < after.len() implies after[i].0 != after[j].0 by {
            if j == votes.len() {
                assert(votes[i].0 != peer);
            }
        }
    }
}

} // verus!

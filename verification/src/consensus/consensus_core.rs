//! What every part of the consensus shares: the choice of the leader and the
//! checks of collected signatures.

use vstd::prelude::*;
use crate::account::AccountType;
use crate::quorum::{quorum_sizes_fit, supermajority, supermajority_reached};
use crate::signature_list::{SignatureList, signers_unique};
use crate::transaction_checker::{AccountChecker, PermissionError, account_lookup};
use crate::types::{LeaderTerm, PeerId, Signature};
use crate::world_state::{Peer, WorldState};
use crate::account::AccountView;
use super::error::Error;

verus! {

/// The peer that leads the consensus in `term`: the peers take turns.
pub open spec fn leader_of(peers: Seq<Peer>, term: LeaderTerm) -> PeerId {
    peers[(term.0 as int) % (peers.len() as int)].0
}

/// The peer that leads the consensus in `leader_term`.
///
/// There must be at least one peer: the terms are divided among them.
pub fn leader(world_state: &WorldState, leader_term: LeaderTerm) -> (peer: PeerId)
    requires
        world_state.peers_view().len() > 0,
    ensures
        peer == leader_of(world_state.peers_view(), leader_term),
{
    let count = world_state.peer_count() as u64;
    let index = leader_term.0 % count;
    world_state.peer(index as usize).0
}

/// The leaders go round the peer list: the term that lies one round (as
/// many terms as there are peers) behind another has the same leader, and the
/// leader of each term is one of the peers.
pub proof fn law_leader_round_robin(peers: Seq<Peer>, term: LeaderTerm, later: LeaderTerm)
    requires
        peers.len() > 0,
        later.0 == term.0 + peers.len(),
    ensures
        leader_of(peers, later) == leader_of(peers, term),
        exists|i: int| 0 <= i < peers.len() && #[trigger] peers[i].0 == leader_of(peers, term),
{
    let n = peers.len() as int;
    vstd::arithmetic::div_mod::lemma_mod_add_multiples_vanish(term.0 as int, n);
    vstd::arithmetic::div_mod::lemma_mod_bound(term.0 as int, n);
    assert(peers[(term.0 as int) % n].0 == leader_of(peers, term));
}

/// Whether `peer` is a known RPU whose account has not expired at `now`.
pub open spec fn rpu_check(accounts: Map<PeerId, AccountView>, peer: PeerId, now: i64) -> Result<(), PermissionError> {
    match account_lookup(accounts, peer, now) {
        Err(e) => Err(e),
        Ok(account) => if account.account_type == AccountType::RPU {
            Ok(())
        } else {
            Err(PermissionError::NotAnRPU(peer))
        },
    }
}

/// The first failure among `signatures`, checked in order: a signature that
/// is not valid (`valid`), or a signer that is no RPU.
pub open spec fn signatures_check(
    accounts: Map<PeerId, AccountView>,
    signatures: Seq<(PeerId, Signature)>,
    valid: Seq<bool>,
    now: i64,
) -> Result<(), Error>
    decreases signatures.len(),
{
    if signatures.len() == 0 {
        Ok(())
    } else {
        match signatures_check(accounts, signatures.drop_last(), valid.drop_last(), now) {
            Err(e) => Err(e),
            Ok(_) => if !valid.last() {
                Err(Error::InvalidSignature)
            } else {
                match rpu_check(accounts, signatures.last().0, now) {
                    Err(e) => Err(Error::Permission(e)),
                    Ok(_) => Ok(()),
                }
            },
        }
    }
}

/// The outcome of checking that `signatures` prove the agreement of a
/// supermajority of `peer_count` RPUs.
pub open spec fn majority_signatures_check(
    accounts: Map<PeerId, AccountView>,
    peer_count: int,
    signatures: Seq<(PeerId, Signature)>,
    valid: Seq<bool>,
    now: i64,
) -> Result<(), Error> {
    if !signers_unique(signatures) {
        Err(Error::DuplicateSignatures)
    } else if signatures.len() < supermajority(peer_count) {
        Err(Error::NotEnoughSignatures)
    } else {
        signatures_check(accounts, signatures, valid, now)
    }
}

/// Whether the `i`-th of `signatures` is valid and signed by a known RPU
/// whose account has not expired at `now`.
pub open spec fn signature_accepted(
    accounts: Map<PeerId, AccountView>,
    signatures: Seq<(PeerId, Signature)>,
    valid: Seq<bool>,
    now: i64,
    i: int,
) -> bool {
    &&& valid[i]
    &&& accounts.contains_key(signatures[i].0)
    &&& !accounts[signatures[i].0].expire_at.expired_at(now)
    &&& accounts[signatures[i].0].account_type == AccountType::RPU
}

/// Signatures that pass the check are each valid and signed by an RPU.
proof fn lemma_signatures_check_ok(
    accounts: Map<PeerId, AccountView>,
    signatures: Seq<(PeerId, Signature)>,
    valid: Seq<bool>,
    now: i64,
)
    requires
        valid.len() == signatures.len(),
        signatures_check(accounts, signatures, valid, now) is Ok,
    ensures
        forall|i: int| 0 <= i < signatures.len() ==> #[trigger] signature_accepted(accounts, signatures, valid, now, i),
    decreases signatures.len(),
{
    if signatures.len() > 0 {
        let (s, v) = (signatures.drop_last(), valid.drop_last());
        lemma_signatures_check_ok(accounts, s, v, now);
        assert forall|i: int| 0 <= i < signatures.len() implies #[trigger] signature_accepted(
            accounts,
            signatures,
            valid,
            now,
            i,
        ) by {
            if i < signatures.len() - 1 {
                assert(signature_accepted(accounts, s, v, now, i));
                assert(s[i] == signatures[i] && v[i] == valid[i]);
            }
        }
    }
}

/// Signatures pass the supermajority check only where their signers are
/// distinct, they number more than two thirds of the `peer_count` peers, and
/// each is valid and signed by an RPU whose account has not expired.
pub proof fn law_majority_check_needs_a_supermajority_of_rpus(
    accounts: Map<PeerId, AccountView>,
    peer_count: int,
    signatures: Seq<(PeerId, Signature)>,
    valid: Seq<bool>,
    now: i64,
)
    requires
        valid.len() == signatures.len(),
        majority_signatures_check(accounts, peer_count, signatures, valid, now) is Ok,
    ensures
        forall|i: int, j: int| 0 <= i < j < signatures.len() ==> signatures[i].0 != signatures[j].0,
        signatures.len() >= peer_count * 2 / 3 + 1,
        forall|i: int| 0 <= i < signatures.len() ==> #[trigger] signature_accepted(accounts, signatures, valid, now, i),
{
    lemma_signatures_check_ok(accounts, signatures, valid, now);
}

/// Check that `signatures` come from distinct known RPUs, that they form a
/// supermajority of the peers, and that each is valid. `signatures_valid[i]`
/// is the outcome of verifying the `i`-th signature over the message.
pub fn verify_rpu_majority_signatures(
    world_state: &WorldState,
    signatures: &SignatureList,
    signatures_valid: &Vec<bool>,
    now: i64,
) -> (res: Result<(), Error>)
    requires
        signatures_valid@.len() == signatures@.len(),
        signers_unique(signatures@) ==> quorum_sizes_fit(world_state.peers_view().len() as int),
    ensures
        res == majority_signatures_check(
            world_state.accounts_view(),
            world_state.peers_view().len() as int,
            signatures@,
            signatures_valid@,
            now,
        ),
{
    if !signatures.is_unique() {
        return Err(Error::DuplicateSignatures);
    }
    if !supermajority_reached(signatures.len(), world_state.peer_count()) {
        return Err(Error::NotEnoughSignatures);
    }
    let ghost accounts = world_state.accounts_view();
    let mut i: usize = 0;
    while i < signatures.len()
        invariant
            i <= signatures@.len(),
            signatures_valid@.len() == signatures@.len(),
            accounts == world_state.accounts_view(),
            signers_unique(signatures@),
            signatures@.len() >= supermajority(world_state.peers_view().len() as int),
            signatures_check(accounts, signatures@.take(i as int), signatures_valid@.take(i as int), now) == Ok::<
                (),
                Error,
            >(()),
        decreases signatures@.len() - i,
    {
        let (peer_id, _) = signatures.get(i);
        proof {
            assert(signatures@.take(i + 1).drop_last() =~= signatures@.take(i as int));
            assert(signatures_valid@.take(i + 1).drop_last() =~= signatures_valid@.take(i as int));
            assert(signatures@.take(i + 1).last() == signatures@[i as int]);
            assert(signatures_valid@.take(i + 1).last() == signatures_valid@[i as int]);
        }
        if !signatures_valid[i] {
            proof {
                lemma_signatures_check_error(accounts, signatures@, signatures_valid@, now, i + 1);
            }
            return Err(Error::InvalidSignature);
        }
        let checked = match AccountChecker::new(world_state, peer_id, now) {
            Ok(checker) => checker.verify_is_rpu(),
            Err(e) => Err(e),
        };
        if let Err(e) = checked {
            proof {
                lemma_signatures_check_error(accounts, signatures@, signatures_valid@, now, i + 1);
            }
            return Err(Error::Permission(e));
        }
        i = i + 1;
    }
    proof {
        assert(signatures@.take(i as int) =~= signatures@);
        assert(signatures_valid@.take(i as int) =~= signatures_valid@);
    }
    Ok(())
}

/// Once a prefix of the signatures fails the check, all of them fail the same way.
proof fn lemma_signatures_check_error(
    accounts: Map<PeerId, AccountView>,
    signatures: Seq<(PeerId, Signature)>,
    valid: Seq<bool>,
    now: i64,
    n: int,
)
    requires
        0 <= n <= signatures.len(),
        valid.len() == signatures.len(),
        signatures_check(accounts, signatures.take(n), valid.take(n), now) is Err,
    ensures
        signatures_check(accounts, signatures, valid, now) == signatures_check(
            accounts,
            signatures.take(n),
            valid.take(n),
            now,
        ),
    decreases signatures.len() - n,
{
    if n < signatures.len() {
        assert(signatures.take(n + 1).drop_last() =~= signatures.take(n));
        assert(valid.take(n + 1).drop_last() =~= valid.take(n));
        lemma_signatures_check_error(accounts, signatures, valid, now, n + 1);
    } else {
        assert(signatures.take(n) =~= signatures);
        assert(valid.take(n) =~= valid);
    }
}

/// The signatures of those results that arrived (`Some`), in order.
pub open spec fn responders(results: Seq<Option<(PeerId, Signature)>>) -> Seq<(PeerId, Signature)>
    decreases results.len(),
{
    if results.len() == 0 {
        Seq::empty()
    } else {
        let earlier = responders(results.drop_last());
        match results.last() {
            Some(item) => earlier.push(item),
            None => earlier,
        }
    }
}

/// The responders of two runs of results one after the other.
proof fn lemma_responders_concat(a: Seq<Option<(PeerId, Signature)>>, b: Seq<Option<(PeerId, Signature)>>)
    ensures
        responders(a + b) == responders(a) + responders(b),
    decreases b.len(),
{
    if b.len() == 0 {
        assert(a + b =~= a);
        assert(responders(a) + responders(b) =~= responders(a));
    } else {
        assert((a + b).drop_last() =~= a + b.drop_last());
        lemma_responders_concat(a, b.drop_last());
        match b.last() {
            Some(item) => {
                assert(responders(a) + responders(b) =~= (responders(a) + responders(b.drop_last())).push(item));
            },
            None => {},
        }
    }
}

/// Check that a response was signed by the peer it was sent to.
pub fn check_response_signer(signer: PeerId, peer_id: PeerId) -> (res: Result<(), Error>)
    ensures
        signer == peer_id ==> res == Ok::<(), Error>(()),
        signer != peer_id ==> res == Err::<(), Error>(Error::InvalidPeer(signer)),
{
    if signer == peer_id {
        Ok(())
    } else {
        Err(Error::InvalidPeer(signer))
    }
}

/// Collect the answers of a broadcast, in their order of arrival, until a
/// supermajority of `peer_count` peers has answered (`None` stands for a
/// peer whose answer failed).
///
/// Succeeds with the signatures of the first supermajority of answers.
pub fn collect_until_supermajority(results: Vec<Option<(PeerId, Signature)>>, peer_count: usize) -> (res: Result<SignatureList, Error>)
    requires
        peer_count >= 4,
        peer_count * 2 <= usize::MAX,
    ensures
        responders(results@).len() >= supermajority(peer_count as int) ==> (res matches Ok(list) && list@
            == responders(results@).take(supermajority(peer_count as int))),
        responders(results@).len() < supermajority(peer_count as int) ==> res == Err::<SignatureList, Error>(
            Error::CouldNotGetSupermajority,
        ),
{
    let ghost all = results@;
    let ghost needed = supermajority(peer_count as int);
    let mut responses = SignatureList::default();
    let mut i: usize = 0;
    while i < results.len()
        invariant
            all == results@,
            needed == supermajority(peer_count as int),
            peer_count >= 4,
            peer_count * 2 <= usize::MAX,
            i <= all.len(),
            responses@ == responders(all.take(i as int)),
            responses@.len() < needed,
        decreases all.len() - i,
    {
        proof {
            assert(all.take(i + 1).drop_last() =~= all.take(i as int));
            assert(all.take(i + 1).last() == all[i as int]);
        }
        match results[i] {
            Some(item) => responses.push(item),
            None => {},
        }
        i = i + 1;
        if supermajority_reached(responses.len(), peer_count) {
            proof {
                assert(all =~= all.take(i as int) + all.skip(i as int));
                lemma_responders_concat(all.take(i as int), all.skip(i as int));
                assert(responses@.len() == needed);
                assert(responders(all).take(needed) =~= responses@);
            }
            return Ok(responses);
        }
    }
    proof {
        assert(all.take(i as int) =~= all);
    }
    Err(Error::CouldNotGetSupermajority)
}

/// Check the sender of a consensus message: only RPUs take part, and the
/// message must carry a valid signature of its sender (`signature_valid`).
pub fn verify_message_sender(world_state: &WorldState, peer_id: PeerId, signature_valid: bool, now: i64) -> (res: Result<(), Error>)
    ensures
        res == match rpu_check(world_state.accounts_view(), peer_id, now) {
            Err(e) => Err(Error::Permission(e)),
            Ok(_) => if signature_valid {
                Ok(())
            } else {
                Err(Error::InvalidSignature)
            },
        },
{
    let checked = match AccountChecker::new(world_state, peer_id, now) {
        Ok(checker) => checker.verify_is_rpu(),
        Err(e) => Err(e),
    };
    if let Err(e) = checked {
        return Err(Error::Permission(e));
    }
    if !signature_valid {
        return Err(Error::InvalidSignature);
    }
    Ok(())
}

} // verus!

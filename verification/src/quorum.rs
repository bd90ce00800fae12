//! The sizes of the quorums of the consensus.
//!
//! With `n` peers the consensus tolerates `f = (n - 1) / 3` faulty peers.
//! A supermajority holds more than two thirds of the peers.

use vstd::prelude::*;
use vstd::set_lib::{lemma_len_subset, lemma_set_intersect_union_lens};

verus! {

/// The smallest number of peers that is more than two thirds of `peer_count`.
pub open spec fn supermajority(peer_count: int) -> int {
    peer_count * 2 / 3 + 1
}

/// Whether the consensus can count quorums of `peer_count` peers: it needs
/// at least four peers, and twice their number must fit into a `usize`.
pub open spec fn quorum_sizes_fit(peer_count: int) -> bool {
    peer_count >= 4 && peer_count * 2 <= usize::MAX
}

/// The smallest number of peers of which at least one is not faulty (`f + 1`).
pub open spec fn nonfaulty(peer_count: int) -> int {
    (peer_count - 1) / 3 + 1
}

/// Check whether a number represents a supermajority (>2/3) compared
/// to the total number of peers (`peer_count`) in the consenus.
///
/// The consensus cannot run with fewer than four peers: such a count is
/// refused.
pub fn supermajority_reached(response_len: usize, peer_count: usize) -> (reached: bool)
    requires
        peer_count >= 4,
        peer_count * 2 <= usize::MAX,
    ensures
        reached == (response_len >= supermajority(peer_count as int)),
{
    let supermajority = peer_count * 2 / 3 + 1;
    response_len >= supermajority
}

/// The number that represents `f + 1` peers.
pub fn nonfaulty_count(peer_count: usize) -> (count: usize)
    requires
        peer_count >= 1,
    ensures
        count == nonfaulty(peer_count as int),
{
    (peer_count - 1) / 3 + 1
}

/// Two supermajorities overlap in at least `f + 1` peers.
proof fn lemma_quorum_overlap(n: int)
    requires
        n >= 1,
    ensures
        2 * supermajority(n) - n >= nonfaulty(n),
{
    let q = n / 3;
    let r = n % 3;
    assert(n == 3 * q + r && 0 <= r < 3);
    assert(n * 2 / 3 == 2 * q + (2 * r) / 3) by {
        assert(n * 2 == 3 * (2 * q) + 2 * r);
    }
    assert((n - 1) / 3 == if r == 0 { q - 1 } else { q }) by {
        if r == 0 {
            assert(n - 1 == 3 * (q - 1) + 2);
        } else {
            assert(n - 1 == 3 * q + (r - 1));
        }
    }
}

/// Any two groups of peers that each form a supermajority of `peers` have at
/// least `f + 1` peers in common, so at least one correct peer is in both.
pub proof fn law_supermajorities_share_a_correct_peer<A>(peers: Set<A>, a: Set<A>, b: Set<A>)
    requires
        peers.finite(),
        peers.len() >= 1,
        a.subset_of(peers),
        b.subset_of(peers),
        a.len() >= supermajority(peers.len() as int),
        b.len() >= supermajority(peers.len() as int),
    ensures
        a.intersect(b).len() >= nonfaulty(peers.len() as int),
{
    lemma_len_subset(a, peers);
    lemma_len_subset(b, peers);
    lemma_set_intersect_union_lens(a, b);
    lemma_len_subset(a + b, peers);
    lemma_quorum_overlap(peers.len() as int);
}

/// `f + 1` peers never outnumber a supermajority.
pub proof fn law_nonfaulty_below_supermajority(peer_count: int)
    requires
        peer_count >= 1,
    ensures
        nonfaulty(peer_count) <= supermajority(peer_count),
{
}

/// Safety of the consensus: where at most `f` peers are faulty and every
/// correct peer acknowledges at most one value per round (`acknowledged`),
/// two values that each a supermajority acknowledged in the same round are
/// the same value.
pub proof fn law_supermajorities_agree<A, V>(
    peers: Set<A>,
    faulty: Set<A>,
    acknowledged: spec_fn(A, V) -> bool,
    a: Set<A>,
    b: Set<A>,
    first: V,
    second: V,
)
    requires
        peers.finite(),
        peers.len() >= 1,
        faulty.subset_of(peers),
        faulty.len() < nonfaulty(peers.len() as int),
        a.subset_of(peers),
        b.subset_of(peers),
        a.len() >= supermajority(peers.len() as int),
        b.len() >= supermajority(peers.len() as int),
        forall|p: A| #[trigger] a.contains(p) ==> acknowledged(p, first),
        forall|p: A| #[trigger] b.contains(p) ==> acknowledged(p, second),
        forall|p: A, x: V, y: V|
            #![trigger acknowledged(p, x), acknowledged(p, y)]
            peers.contains(p) && !faulty.contains(p) && acknowledged(p, x) && acknowledged(p, y) ==> x == y,
    ensures
        first == second,
{
    law_supermajorities_share_a_correct_peer(peers, a, b);
    let both = a.intersect(b);
    lemma_len_subset(both, peers);
    if both.subset_of(faulty) {
        lemma_len_subset(both, faulty);
        assert(false);
    }
    let p = choose|p: A| both.contains(p) && !faulty.contains(p);
    assert(acknowledged(p, first) && acknowledged(p, second));
}

} // verus!

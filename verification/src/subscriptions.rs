//! The subscriptions of time series that are exported to an outside server:
//! which keys (namespaces) of which accounts are subscribed, and under which
//! device they are exported.

use vstd::prelude::*;
use crate::types::PeerId;

verus! {

/// A subscription as it is configured.
#[derive(Debug)]
pub struct Subscription {
    /// The account whose values are exported.
    pub peer_id: PeerId,
    /// The key of the values.
    pub namespace: String,
    /// The name of the device that the values are exported to.
    pub device_name: String,
    /// The group label of the device.
    pub device_type: String,
}

/// The subscriptions of one account.
#[derive(Debug)]
pub struct SubscriptionMeta {
    /// All subscribed namespaces (each once).
    pub namespaces: Vec<String>,
    /// The name of the device (from the first subscription of the account).
    pub device_name: String,
    /// The group label of the device (from the first subscription of the account).
    pub device_type: String,
}

/// What the subscriptions of one account hold.
pub struct SubscriptionMetaView {
    /// All subscribed namespaces.
    pub namespaces: Set<Seq<char>>,
    /// The name of the device.
    pub device_name: Seq<char>,
    /// The group label of the device.
    pub device_type: Seq<char>,
}

/// The view of the subscriptions of one account.
pub open spec fn meta_view(meta: SubscriptionMeta) -> SubscriptionMetaView {
    SubscriptionMetaView {
        namespaces: Set::new(|n: Seq<char>| exists|k: int| 0 <= k < meta.namespaces@.len() && meta.namespaces@[k]@ == n),
        device_name: meta.device_name@,
        device_type: meta.device_type@,
    }
}

/// The subscriptions of each account, as configured by `config`: the
/// namespaces of all its subscriptions, and the device of its first one.
pub open spec fn grouped(config: Seq<Subscription>) -> Map<PeerId, SubscriptionMetaView>
    decreases config.len(),
{
    if config.len() == 0 {
        Map::empty()
    } else {
        let earlier = grouped(config.drop_last());
        let s = config.last();
        if earlier.contains_key(s.peer_id) {
            earlier.insert(
                s.peer_id,
                SubscriptionMetaView {
                    namespaces: earlier[s.peer_id].namespaces.insert(s.namespace@),
                    ..earlier[s.peer_id]
                },
            )
        } else {
            earlier.insert(
                s.peer_id,
                SubscriptionMetaView {
                    namespaces: Set::empty().insert(s.namespace@),
                    device_name: s.device_name@,
                    device_type: s.device_type@,
                },
            )
        }
    }
}

/// The subscriptions held by `entries`, by account.
pub open spec fn entries_map(entries: Seq<(PeerId, SubscriptionMeta)>) -> Map<PeerId, SubscriptionMetaView>
    decreases entries.len(),
{
    if entries.len() == 0 {
        Map::empty()
    } else {
        entries_map(entries.drop_last()).insert(entries.last().0, meta_view(entries.last().1))
    }
}

/// Whether no account occurs twice in `entries`.
pub open spec fn unique_peers(entries: Seq<(PeerId, SubscriptionMeta)>) -> bool {
    forall|i: int, j: int| 0 <= i < j < entries.len() ==> entries[i].0 != entries[j].0
}

/// With each account once, the map holds exactly the entries.
proof fn lemma_entries_map(entries: Seq<(PeerId, SubscriptionMeta)>)
    requires
        unique_peers(entries),
    ensures
        forall|p: PeerId|
            #![trigger entries_map(entries).contains_key(p)]
            entries_map(entries).contains_key(p) <==> exists|i: int| 0 <= i < entries.len() && entries[i].0 == p,
        forall|i: int|
            0 <= i < entries.len() ==> #[trigger] entries_map(entries)[entries[i].0] == meta_view(entries[i].1),
    decreases entries.len(),
{
    if entries.len() > 0 {
        let shorter = entries.drop_last();
        lemma_entries_map(shorter);
        assert forall|p: PeerId|
            #![trigger entries_map(entries).contains_key(p)]
            entries_map(entries).contains_key(p) implies exists|i: int| 0 <= i < entries.len() && entries[i].0 == p by {
            if p != entries.last().0 {
                assert(entries_map(shorter).contains_key(p));
                let i = choose|i: int| 0 <= i < shorter.len() && shorter[i].0 == p;
                assert(shorter[i] == entries[i]);
                assert(entries[i].0 == p);
            } else {
                assert(entries[entries.len() - 1].0 == p);
            }
        }
        assert forall|p: PeerId|
            #![trigger entries_map(entries).contains_key(p)]
            (exists|i: int| 0 <= i < entries.len() && entries[i].0 == p) implies entries_map(entries).contains_key(p) by {
            let i = choose|i: int| 0 <= i < entries.len() && entries[i].0 == p;
            if i < entries.len() - 1 {
                assert(shorter[i].0 == p);
                assert(entries_map(shorter).contains_key(p));
            }
        }
        assert forall|i: int| 0 <= i < entries.len() implies #[trigger] entries_map(entries)[entries[i].0] == meta_view(
            entries[i].1,
        ) by {
            if i < entries.len() - 1 {
                assert(shorter[i] == entries[i]);
                assert(entries[i].0 != entries.last().0);
                assert(entries_map(shorter)[shorter[i].0] == meta_view(shorter[i].1));
            }
        }
    }
}

/// Replacing the subscriptions of the account at position `j` replaces them in the map.
proof fn lemma_entries_map_update(entries: Seq<(PeerId, SubscriptionMeta)>, j: int, meta: SubscriptionMeta)
    requires
        unique_peers(entries),
        0 <= j < entries.len(),
    ensures
        entries_map(entries.update(j, (entries[j].0, meta))) == entries_map(entries).insert(entries[j].0, meta_view(meta)),
    decreases entries.len(),
{
    let updated = entries.update(j, (entries[j].0, meta));
    if j == entries.len() - 1 {
        assert(updated.drop_last() =~= entries.drop_last());
        assert(entries_map(updated) =~= entries_map(entries).insert(entries[j].0, meta_view(meta)));
    } else {
        let shorter = entries.drop_last();
        lemma_entries_map_update(shorter, j, meta);
        assert(updated.drop_last() =~= shorter.update(j, (shorter[j].0, meta)));
        assert(entries[j].0 != entries.last().0);
        assert(entries_map(updated) =~= entries_map(entries).insert(entries[j].0, meta_view(meta)));
    }
}

/// The position of the subscriptions of `peer_id` in `entries`, if any.
fn find_peer(entries: &Vec<(PeerId, SubscriptionMeta)>, peer_id: &PeerId) -> (index: Option<usize>)
    ensures
        index matches Some(j) ==> j < entries@.len() && entries@[j as int].0 == *peer_id,
        index.is_none() ==> forall|i: int| 0 <= i < entries@.len() ==> entries@[i].0 != *peer_id,
{
    let mut i: usize = 0;
    while i < entries.len()
        invariant
            i <= entries@.len(),
            forall|k: int| 0 <= k < i ==> entries@[k].0 != *peer_id,
        decreases entries@.len() - i,
    {
        if entries[i].0 == *peer_id {
            return Some(i);
        }
        i = i + 1;
    }
    None
}

/// Whether `namespaces` holds `namespace`.
fn contains_namespace(namespaces: &Vec<String>, namespace: &String) -> (found: bool)
    ensures
        found == exists|k: int| 0 <= k < namespaces@.len() && namespaces@[k]@ == namespace@,
{
    let mut i: usize = 0;
    while i < namespaces.len()
        invariant
            i <= namespaces@.len(),
            forall|k: int| 0 <= k < i ==> namespaces@[k]@ != namespace@,
        decreases namespaces@.len() - i,
    {
        if namespaces[i] == *namespace {
            return true;
        }
        i = i + 1;
    }
    false
}

/// Group the configured subscriptions by account: the namespaces of all
/// subscriptions of an account, and the device of its first one.
pub fn build_subscriptions(config: &Vec<Subscription>) -> (entries: Vec<(PeerId, SubscriptionMeta)>)
    ensures
        unique_peers(entries@),
        entries_map(entries@) == grouped(config@),
{
    let mut entries: Vec<(PeerId, SubscriptionMeta)> = Vec::new();
    let mut i: usize = 0;
    while i < config.len()
        invariant
            i <= config@.len(),
            unique_peers(entries@),
            entries_map(entries@) == grouped(config@.take(i as int)),
        decreases config@.len() - i,
    {
        let subscription = &config[i];
        proof {
            assert(config@.take(i + 1).drop_last() =~= config@.take(i as int));
            assert(config@.take(i + 1).last() == config@[i as int]);
            lemma_entries_map(entries@);
        }
        let ghost before = entries@;
        match find_peer(&entries, &subscription.peer_id) {
            Some(j) => {
                let (peer_id, mut meta) = entries.remove(j);
                let ghost old_meta = meta;
                let ghost ns = subscription.namespace@;
                if !contains_namespace(&meta.namespaces, &subscription.namespace) {
                    meta.namespaces.push(subscription.namespace.clone());
                    proof {
                        let len = old_meta.namespaces@.len() as int;
                        assert(meta.namespaces@[len]@ == ns);
                        assert forall|n: Seq<char>| #[trigger] meta_view(meta).namespaces.contains(n) == meta_view(
                            old_meta,
                        ).namespaces.insert(ns).contains(n) by {
                            if meta_view(old_meta).namespaces.contains(n) {
                                let k = choose|k: int| 0 <= k < len && old_meta.namespaces@[k]@ == n;
                                assert(meta.namespaces@[k] == old_meta.namespaces@[k]);
                            }
                            if meta_view(meta).namespaces.contains(n) {
                                let k = choose|k: int| 0 <= k < len + 1 && meta.namespaces@[k]@ == n;
                                if k < len {
                                    assert(meta.namespaces@[k] == old_meta.namespaces@[k]);
                                }
                            }
                        }
                    }
                } else {
                    proof {
                        let k = choose|k: int| 0 <= k < old_meta.namespaces@.len() && old_meta.namespaces@[k]@ == ns;
                        assert(meta_view(old_meta).namespaces.contains(ns));
                    }
                }
                proof {
                    assert(meta_view(meta).namespaces =~= meta_view(old_meta).namespaces.insert(subscription.namespace@));
                    assert(meta_view(meta) == (SubscriptionMetaView {
                        namespaces: meta_view(old_meta).namespaces.insert(subscription.namespace@),
                        ..meta_view(old_meta)
                    }));
                }
                entries.insert(j, (peer_id, meta));
                proof {
                    assert(entries@ =~= before.update(j as int, (before[j as int].0, meta)));
                    lemma_entries_map_update(before, j as int, meta);
                    assert(entries_map(before)[subscription.peer_id] == meta_view(old_meta));
                }
            },
            None => {
                let meta = SubscriptionMeta {
                    namespaces: vec![subscription.namespace.clone()],
                    device_name: subscription.device_name.clone(),
                    device_type: subscription.device_type.clone(),
                };
                proof {
                    assert(meta_view(meta).namespaces =~= Set::<Seq<char>>::empty().insert(subscription.namespace@)) by {
                        assert(meta.namespaces@[0]@ == subscription.namespace@);
                    }
                }
                entries.push((subscription.peer_id, meta));
                proof {
                    assert(entries@.drop_last() =~= before);
                }
            },
        }
        i = i + 1;
    }
    proof {
        assert(config@.take(i as int) =~= config@);
    }
    entries
}

/// Whether the values of `peer_id` under `namespace` are subscribed.
pub fn is_subscribed(entries: &Vec<(PeerId, SubscriptionMeta)>, peer_id: &PeerId, namespace: &String) -> (subscribed: bool)
    requires
        unique_peers(entries@),
    ensures
        subscribed == (entries_map(entries@).contains_key(*peer_id) && entries_map(entries@)[*peer_id].namespaces.contains(
            namespace@,
        )),
{
    proof {
        lemma_entries_map(entries@);
    }
    match find_peer(entries, peer_id) {
        Some(j) => contains_namespace(&entries[j].1.namespaces, namespace),
        None => false,
    }
}

/// The updated values of a block (by account and key) that are subscribed,
/// in order.
pub fn subscribed_updates(entries: &Vec<(PeerId, SubscriptionMeta)>, updates: &Vec<(PeerId, String)>) -> (subscribed: Vec<
    (PeerId, String),
>)
    requires
        unique_peers(entries@),
    ensures
        subscribed@ == updates@.filter(
            |u: (PeerId, String)|
                entries_map(entries@).contains_key(u.0) && entries_map(entries@)[u.0].namespaces.contains(u.1@),
        ),
{
    let mut subscribed: Vec<(PeerId, String)> = Vec::new();
    let mut i: usize = 0;
    while i < updates.len()
        invariant
            i <= updates@.len(),
            unique_peers(entries@),
            subscribed@ == updates@.take(i as int).filter(
                |u: (PeerId, String)|
                    entries_map(entries@).contains_key(u.0) && entries_map(entries@)[u.0].namespaces.contains(u.1@),
            ),
        decreases updates@.len() - i,
    {
        proof {
            assert(updates@.take(i + 1).drop_last() =~= updates@.take(i as int));
            assert(updates@.take(i + 1).last() == updates@[i as int]);
            reveal(Seq::filter);
        }
        if is_subscribed(entries, &updates[i].0, &updates[i].1) {
            subscribed.push((updates[i].0, updates[i].1.clone()));
        }
        i = i + 1;
    }
    proof {
        assert(updates@.take(i as int) =~= updates@);
    }
    subscribed
}

} // verus!

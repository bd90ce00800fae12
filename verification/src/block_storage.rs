//! The decisions of the block storage: which block may be stored next, the
//! keys under which blocks and values are stored, and which stored values of
//! a time series a query selects.
//!
//! Blocks are stored under the big endian bytes of their number. The values
//! of an account's key form a time series, stored under
//! `peer id ++ [0] ++ key`; each value is keyed by the time the RPU wrote it
//! followed by the client's timestamp (both big endian nanoseconds).

use vstd::prelude::*;
use crate::block::Block;
use crate::time::{be_bytes_of, signed_of, system_time_from_bytes, system_time_to_bytes, u64_of_be_bytes};
use crate::account::ReadingPermissionView;
use crate::transaction_checker::{AccountChecker, may_read_key};
use crate::types::{BlockHash, BlockNumber, Bytes32, PeerId};

verus! {

/// An error of the block storage.
#[derive(Debug, Clone, Copy, PartialEq, Eq, Structural)]
pub enum Error {
    /// The underlying database failed.
    Storage,
    /// The block hash does not match the previous block hash.
    BlockHashDoesNotMatch,
    /// The block height does not fit the previous block height.
    BlockHeightDoesNotFit,
    /// A block or a value could not be encoded or decoded.
    Encoding,
}

/// The checks of a block that is to be stored after the last stored block,
/// given by its hash and height (none for an empty storage).
pub open spec fn next_block_check(last: Option<(BlockHash, BlockNumber)>, block: Block) -> Result<(), Error> {
    let (last_block_hash, block_number) = match last {
        Some((hash, height)) => (hash, height.0 + 1),
        None => (BlockHash(Bytes32(0, 0, 0, 0)), 0),
    };
    if block.body.prev_block_hash != last_block_hash {
        Err(Error::BlockHashDoesNotMatch)
    } else if block.body.height.0 != block_number {
        Err(Error::BlockHeightDoesNotFit)
    } else {
        Ok(())
    }
}

/// Check that `block` may be stored after the last stored block (`last`:
/// its hash and its height, or `None` for an empty storage): it names the
/// last block as its predecessor and has the next height.
pub fn check_next_block(last: Option<(BlockHash, BlockNumber)>, block: &Block) -> (res: Result<(), Error>)
    requires
        last matches Some(l) ==> l.1.0 < u64::MAX,
    ensures
        res == next_block_check(last, *block),
{
    let (last_block_hash, block_number) = match last {
        Some((hash, height)) => (hash, height.0 + 1),
        None => (BlockHash::default(), 0),
    };
    if block.body.prev_block_hash != last_block_hash {
        return Err(Error::BlockHashDoesNotMatch);
    }
    if block.body.height.0 != block_number {
        return Err(Error::BlockHeightDoesNotFit);
    }
    Ok(())
}

/// The key under which a block is stored: the big endian bytes of its number.
pub fn block_key(block: &Block) -> (key: [u8; 8])
    ensures
        key@ == be_bytes_of(block.body.height.0 as int),
{
    block.block_number().to_be_bytes()
}

impl Bytes32 {
    /// The thirty-two bytes, most significant first.
    pub open spec fn bytes_spec(self) -> Seq<u8> {
        be_bytes_of(self.0 as int) + be_bytes_of(self.1 as int) + be_bytes_of(self.2 as int) + be_bytes_of(
            self.3 as int,
        )
    }

    /// The thirty-two bytes, most significant first.
    pub fn to_bytes(&self) -> (bytes: Vec<u8>)
        ensures
            bytes@ == self.bytes_spec(),
    {
        let mut bytes: Vec<u8> = Vec::new();
        let words = [self.0, self.1, self.2, self.3];
        let mut w: usize = 0;
        while w < 4
            invariant
                w <= 4,
                words@ == seq![self.0, self.1, self.2, self.3],
                bytes@ == if w == 0 {
                    Seq::<u8>::empty()
                } else if w == 1 {
                    be_bytes_of(self.0 as int)
                } else if w == 2 {
                    be_bytes_of(self.0 as int) + be_bytes_of(self.1 as int)
                } else if w == 3 {
                    be_bytes_of(self.0 as int) + be_bytes_of(self.1 as int) + be_bytes_of(self.2 as int)
                } else {
                    self.bytes_spec()
                },
            decreases 4 - w,
        {
            let word = crate::time::u64_to_be_bytes(words[w]);
            let ghost before = bytes@;
            let mut i: usize = 0;
            while i < 8
                invariant
                    i <= 8,
                    bytes@ == before + word@.take(i as int),
                decreases 8 - i,
            {
                bytes.push(word[i]);
                i = i + 1;
                proof {
                    assert(bytes@ =~= before + word@.take(i as int));
                }
            }
            proof {
                assert(word@.take(8) =~= word@);
            }
            w = w + 1;
        }
        bytes
    }

    /// Read thirty-two bytes, most significant first.
    pub fn from_bytes(bytes: &[u8]) -> (value: Self)
        requires
            bytes@.len() == 32,
        ensures
            value == Bytes32(
                u64_of_be_bytes(bytes@.subrange(0, 8)),
                u64_of_be_bytes(bytes@.subrange(8, 16)),
                u64_of_be_bytes(bytes@.subrange(16, 24)),
                u64_of_be_bytes(bytes@.subrange(24, 32)),
            ),
    {
        Bytes32(u64_at(bytes, 0), u64_at(bytes, 8), u64_at(bytes, 16), u64_at(bytes, 24))
    }
}

/// The number whose big endian bytes start at `offset` in `bytes`.
fn u64_at(bytes: &[u8], offset: usize) -> (x: u64)
    requires
        offset + 8 <= bytes@.len(),
    ensures
        x == u64_of_be_bytes(bytes@.subrange(offset as int, offset + 8)),
{
    ((bytes[offset] as u64) << 56u64) | ((bytes[offset + 1] as u64) << 48u64) | ((bytes[offset + 2] as u64)
        << 40u64) | ((bytes[offset + 3] as u64) << 32u64) | ((bytes[offset + 4] as u64) << 24u64) | ((bytes[offset
        + 5] as u64) << 16u64) | ((bytes[offset + 6] as u64) << 8u64) | (bytes[offset + 7] as u64)
}

/// Reading back the bytes of thirty-two bytes gives them back.
pub proof fn law_bytes32_roundtrip(value: Bytes32)
    ensures
        ({
            let bytes = value.bytes_spec();
            Bytes32(
                u64_of_be_bytes(bytes.subrange(0, 8)),
                u64_of_be_bytes(bytes.subrange(8, 16)),
                u64_of_be_bytes(bytes.subrange(16, 24)),
                u64_of_be_bytes(bytes.subrange(24, 32)),
            ) == value
        }),
{
    let bytes = value.bytes_spec();
    assert(bytes.subrange(0, 8) =~= be_bytes_of(value.0 as int));
    assert(bytes.subrange(8, 16) =~= be_bytes_of(value.1 as int));
    assert(bytes.subrange(16, 24) =~= be_bytes_of(value.2 as int));
    assert(bytes.subrange(24, 32) =~= be_bytes_of(value.3 as int));
    crate::time::lemma_be_bytes_roundtrip(value.0);
    crate::time::lemma_be_bytes_roundtrip(value.1);
    crate::time::lemma_be_bytes_roundtrip(value.2);
    crate::time::lemma_be_bytes_roundtrip(value.3);
}

/// The name of the time series of the values that `peer_id` stores under
/// `key`: the bytes of the peer id, a zero byte, and the bytes of the key.
pub fn time_series_name(peer_id: &PeerId, key: &[u8]) -> (name: Vec<u8>)
    ensures
        name@ == peer_id.0.bytes_spec() + seq![0u8] + key@,
{
    let mut name = peer_id.0.to_bytes();
    name.push(0);
    let ghost prefix = name@;
    let mut i: usize = 0;
    while i < key.len()
        invariant
            i <= key@.len(),
            prefix == peer_id.0.bytes_spec() + seq![0u8],
            name@ == prefix + key@.take(i as int),
        decreases key@.len() - i,
    {
        name.push(key[i]);
        i = i + 1;
        proof {
            assert(name@ =~= prefix + key@.take(i as int));
        }
    }
    proof {
        assert(key@.take(i as int) =~= key@);
    }
    name
}

/// The key of a stored value: the time it was written on the RPU (which
/// orders the series) followed by the client's timestamp, both as big
/// endian nanoseconds since the epoch.
pub fn system_times_to_bytes(first: i64, second: i64) -> (bytes: Vec<u8>)
    ensures
        bytes@ == be_bytes_of(first as int) + be_bytes_of(second as int),
{
    let a = system_time_to_bytes(first);
    let b = system_time_to_bytes(second);
    let mut bytes: Vec<u8> = Vec::new();
    let mut i: usize = 0;
    while i < 16
        invariant
            i <= 16,
            bytes@ == (a@ + b@).take(i as int),
        decreases 16 - i,
    {
        if i < 8 {
            bytes.push(a[i]);
        } else {
            bytes.push(b[i - 8]);
        }
        i = i + 1;
        proof {
            assert(bytes@ =~= (a@ + b@).take(i as int));
        }
    }
    proof {
        assert((a@ + b@).take(16) =~= a@ + b@);
    }
    bytes
}

/// Read the two times of the key of a stored value.
///
/// The key must hold sixteen bytes: a key of another length holds no two
/// times, and reading it is a fault.
pub fn system_times_from_bytes(bytes: &[u8]) -> (times: (i64, i64))
    requires
        bytes@.len() == 16,
    ensures
        times.0 == signed_of(u64_of_be_bytes(bytes@.subrange(0, 8))),
        times.1 == signed_of(u64_of_be_bytes(bytes@.subrange(8, 16))),
{
    (u64_at(bytes, 0) as i64, u64_at(bytes, 8) as i64)
}

/// Reading back the key of a stored value gives its two times.
pub proof fn law_system_times_roundtrip(first: i64, second: i64)
    ensures
        ({
            let bytes = be_bytes_of(first as int) + be_bytes_of(second as int);
            signed_of(u64_of_be_bytes(bytes.subrange(0, 8))) == first && signed_of(
                u64_of_be_bytes(bytes.subrange(8, 16)),
            ) == second
        }),
{
    let bytes = be_bytes_of(first as int) + be_bytes_of(second as int);
    assert(bytes.subrange(0, 8) =~= be_bytes_of(first as int));
    assert(bytes.subrange(8, 16) =~= be_bytes_of(second as int));
    crate::time::law_time_bytes_roundtrip(first);
    crate::time::law_time_bytes_roundtrip(second);
}

/// The keys that `checker`'s account may read of those that `peer_id` stored
/// values under, in order.
pub open spec fn readable_keys_spec(checker: AccountChecker, peer_id: PeerId, keys: Seq<String>) -> Seq<String> {
    keys.filter(|key: String| may_read_key(checker.account_view().reading_rights, peer_id, key@))
}

/// Whether the `i`-th of `rules` is the first one that names both `peer`
/// and `key`, and it allows reading.
pub open spec fn first_naming_rule_allows(rules: Seq<ReadingPermissionView>, peer: PeerId, key: Seq<char>, i: int) -> bool {
    &&& 0 <= i < rules.len()
    &&& rules[i].right().accounts.contains(peer)
    &&& rules[i].right().namespace.contains(key)
    &&& rules[i] is Whitelist
    &&& forall|j: int|
        0 <= j < i ==> !(rules[j].right().accounts.contains(peer) && rules[j].right().namespace.contains(key))
}

/// A key of a peer is readable exactly where the first reading rule of the
/// account that names both the peer and that key allows reading: every
/// readable key is one of the peer's keys with such a rule, and each of the
/// peer's keys with such a rule is readable.
pub proof fn law_readable_keys_first_fit(checker: AccountChecker, peer_id: PeerId, keys: Seq<String>)
    ensures
        forall|n: int|
            0 <= n < readable_keys_spec(checker, peer_id, keys).len() ==> keys.contains(
                #[trigger] readable_keys_spec(checker, peer_id, keys)[n],
            ) && exists|i: int|
                first_naming_rule_allows(
                    checker.account_view().reading_rights,
                    peer_id,
                    readable_keys_spec(checker, peer_id, keys)[n]@,
                    i,
                ),
        forall|m: int|
            0 <= m < keys.len() && (exists|i: int|
                first_naming_rule_allows(checker.account_view().reading_rights, peer_id, keys[m]@, i))
                ==> readable_keys_spec(checker, peer_id, keys).contains(#[trigger] keys[m]),
{
    broadcast use vstd::seq_lib::group_filter_ensures;
    let rules = checker.account_view().reading_rights;
    let pred = |key: String| may_read_key(rules, peer_id, key@);
    let r = readable_keys_spec(checker, peer_id, keys);
    assert forall|n: int| 0 <= n < r.len() implies keys.contains(#[trigger] r[n]) && exists|i: int|
        first_naming_rule_allows(rules, peer_id, r[n]@, i) by {
        assert(pred(r[n]));
        keys.lemma_filter_contains_rev(pred, r[n]);
        let i = choose|i: int|
            0 <= i < rules.len() && crate::transaction_checker::rule_matches(rules[i], peer_id, r[n]@) && (forall|j: int|
                0 <= j < i ==> !crate::transaction_checker::rule_matches(rules[j], peer_id, r[n]@)) && rules[i] is Whitelist;
        assert(first_naming_rule_allows(rules, peer_id, r[n]@, i));
    }
    assert forall|m: int|
        0 <= m < keys.len() && (exists|i: int| first_naming_rule_allows(rules, peer_id, keys[m]@, i)) implies r.contains(
        #[trigger] keys[m],
    ) by {
        let i = choose|i: int| first_naming_rule_allows(rules, peer_id, keys[m]@, i);
        assert(crate::transaction_checker::rule_matches(rules[i], peer_id, keys[m]@));
        assert(forall|j: int| 0 <= j < i ==> !crate::transaction_checker::rule_matches(rules[j], peer_id, keys[m]@));
        assert(pred(keys[m]));
        keys.lemma_filter_contains(pred, m);
    }
}

/// The keys that `account_checker`'s account may read of those that
/// `peer_id` stored values under, in order.
pub fn readable_keys(account_checker: &AccountChecker, peer_id: &PeerId, keys: &Vec<String>) -> (readable: Vec<String>)
    ensures
        readable@ == readable_keys_spec(*account_checker, *peer_id, keys@),
        forall|n: int|
            0 <= n < readable@.len() ==> may_read_key(
                account_checker.account_view().reading_rights,
                *peer_id,
                (#[trigger] readable@[n])@,
            ),
        forall|m: int|
            0 <= m < keys@.len() && may_read_key(account_checker.account_view().reading_rights, *peer_id, keys@[m]@)
                ==> readable@.contains(#[trigger] keys@[m]),
{
    let mut readable: Vec<String> = Vec::new();
    let mut i: usize = 0;
    while i < keys.len()
        invariant
            i <= keys@.len(),
            readable@ == readable_keys_spec(*account_checker, *peer_id, keys@.take(i as int)),
        decreases keys@.len() - i,
    {
        proof {
            assert(keys@.take(i + 1).drop_last() =~= keys@.take(i as int));
            assert(keys@.take(i + 1).last() == keys@[i as int]);
            reveal(Seq::filter);
        }
        if account_checker.is_allowed_to_read_key(peer_id, &keys[i]) {
            readable.push(keys[i].clone());
        }
        i = i + 1;
    }
    proof {
        assert(keys@.take(i as int) =~= keys@);
        broadcast use vstd::seq_lib::group_filter_ensures;
        let pred = |key: String| may_read_key(account_checker.account_view().reading_rights, *peer_id, key@);
        assert forall|m: int|
            0 <= m < keys@.len() && may_read_key(account_checker.account_view().reading_rights, *peer_id, keys@[m]@)
                implies readable@.contains(#[trigger] keys@[m]) by {
            assert(pred(keys@[m]));
            keys@.lemma_filter_contains(pred, m);
        }
        assert forall|n: int| 0 <= n < readable@.len() implies may_read_key(
            account_checker.account_view().reading_rights,
            *peer_id,
            (#[trigger] readable@[n])@,
        ) by {
            assert(pred(readable@[n]));
        }
    }
    readable
}

/// A span of the values of a time series, counted back from the newest one.
#[derive(Debug, Clone, Copy, PartialEq, Eq, Structural)]
pub enum Span {
    /// A number of values.
    Count(usize),
    /// The values back to a point in time (nanoseconds since the epoch).
    Time(i64),
    /// The values back over a duration (in nanoseconds) from the newest one.
    Duration(u64),
}

/// A query of the values of a time series.
#[derive(Debug, Clone, Copy, PartialEq, Eq, Structural)]
pub enum Query {
    /// The newest value.
    CurrentValue,
    /// All values.
    AllValues,
    /// The values of `span`, counted back from `end`, leaving out the
    /// values of `skip` after each taken value.
    Range {
        /// How many values to take.
        span: Span,
        /// Where the range ends: so many of the newest values are left out,
        /// or the values from a point in time on, or from a duration before
        /// the current time on.
        end: Span,
        /// What to leave out after each taken value.
        skip: Option<Span>,
    },
}

/// Where the walk back through a series stands in its span.
#[derive(Debug, Clone, Copy, PartialEq, Eq, Structural)]
pub enum Cursor {
    /// This many values may still be taken.
    Count(usize),
    /// Values are taken back to this point in time.
    Since(i128),
    /// Values are taken back over this duration from the first taken one.
    Back(u64),
}

/// Of the first `r` keys of an ascending series, how many remain when the
/// ones at or after `bound` are dropped from the top.
pub open spec fn keys_below(keys: Seq<i64>, bound: int, r: int) -> int
    decreases r,
{
    if r > 0 && r <= keys.len() && keys[r - 1] >= bound {
        keys_below(keys, bound, r - 1)
    } else {
        r
    }
}

/// Dropping keys from the top leaves at most as many as there were.
pub proof fn lemma_keys_below_bound(keys: Seq<i64>, bound: int, r: int)
    requires
        r >= 0,
    ensures
        0 <= keys_below(keys, bound, r) <= r,
    decreases r,
{
    if r > 0 && r <= keys.len() && keys[r - 1] >= bound {
        lemma_keys_below_bound(keys, bound, r - 1);
    }
}

/// The span state at the start of a walk.
pub open spec fn initial_cursor(span: Span) -> Cursor {
    match span {
        Span::Count(count) => Cursor::Count(count),
        Span::Time(time) => Cursor::Since(time as i128),
        Span::Duration(duration) => Cursor::Back(duration),
    }
}

/// The span state after taking the value with key `key`; `None` stops the walk
/// before that value.
pub open spec fn advance_cursor(cursor: Cursor, key: i64) -> Option<Cursor> {
    match cursor {
        Cursor::Count(count) => if count == 0 {
            None
        } else {
            Some(Cursor::Count((count - 1) as usize))
        },
        Cursor::Since(time) => if key < time {
            None
        } else {
            Some(Cursor::Since(time))
        },
        Cursor::Back(duration) => Some(Cursor::Since((key - duration) as i128)),
    }
}

/// How many of `rest` remaining keys are left after skipping behind the
/// taken value with key `key`.
pub open spec fn skipped(keys: Seq<i64>, rest: int, key: i64, skip: Option<Span>) -> int {
    match skip {
        Some(Span::Count(count)) => if rest > count {
            rest - count
        } else {
            0
        },
        Some(Span::Duration(duration)) => keys_below(keys, key - duration, rest),
        _ => rest,
    }
}

/// The positions taken when walking back from the `r`-th key of an
/// ascending series (newest first).
pub open spec fn walk(keys: Seq<i64>, r: int, cursor: Cursor, skip: Option<Span>) -> Seq<int>
    decreases r,
{
    if r <= 0 || r > keys.len() {
        Seq::empty()
    } else {
        let key = keys[r - 1];
        match advance_cursor(cursor, key) {
            None => Seq::empty(),
            Some(next) => {
                let rest = skipped(keys, r - 1, key, skip);
                proof {
                    lemma_keys_below_bound(keys, key - match skip {
                        Some(Span::Duration(duration)) => duration as int,
                        _ => 0,
                    }, r - 1);
                }
                seq![r - 1] + walk(keys, rest, next, skip)
            },
        }
    }
}

/// The positions of the values of an ascending series (by the keys `keys`)
/// that `query` selects at `now`.
pub open spec fn query_selection(keys: Seq<i64>, query: Query, now: i64) -> Seq<int> {
    let n = keys.len() as int;
    match query {
        Query::CurrentValue => if n > 0 {
            seq![n - 1]
        } else {
            Seq::empty()
        },
        Query::AllValues => Seq::new(n as nat, |i: int| i),
        Query::Range { span, end, skip } => {
            let (available, skip_end) = match end {
                Span::Count(count) => (n, count as int),
                Span::Time(time) => (keys_below(keys, time as int, n), 0),
                Span::Duration(duration) => (keys_below(keys, now - duration, n), 0),
            };
            let start = if available > skip_end {
                available - skip_end
            } else {
                0
            };
            walk(keys, start, initial_cursor(span), skip)
        },
    }
}

/// How many of the first `r` keys lie below `bound`, dropping from the top.
fn count_below(keys: &Vec<i64>, bound: i128, r: usize) -> (count: usize)
    requires
        r <= keys@.len(),
    ensures
        count == keys_below(keys@, bound as int, r as int),
{
    let mut count = r;
    while count > 0 && (keys[count - 1] as i128) >= bound
        invariant
            count <= r,
            r <= keys@.len(),
            keys_below(keys@, bound as int, count as int) == keys_below(keys@, bound as int, r as int),
        decreases count,
    {
        count = count - 1;
    }
    count
}

/// The positions of the values of a stored series (with the ascending write
/// times `keys`) that `query` selects at `now` (nanoseconds since the epoch),
/// in the order in which they are visited.
pub fn select_series(keys: &Vec<i64>, query: &Query, now: i64) -> (selected: Vec<usize>)
    ensures
        selected@.len() == query_selection(keys@, *query, now).len(),
        forall|i: int| 0 <= i < selected@.len() ==> selected@[i] == #[trigger] query_selection(keys@, *query, now)[i],
{
    let n = keys.len();
    let mut selected: Vec<usize> = Vec::new();
    match query {
        Query::CurrentValue => {
            if n > 0 {
                selected.push(n - 1);
            }
            selected
        },
        Query::AllValues => {
            let mut i: usize = 0;
            while i < n
                invariant
                    n == keys@.len(),
                    i <= n,
                    selected@.len() == i,
                    forall|k: int| 0 <= k < i ==> selected@[k] == k,
                decreases n - i,
            {
                selected.push(i);
                i = i + 1;
            }
            selected
        },
        Query::Range { span, end, skip } => {
            let (available, skip_end) = match end {
                Span::Count(count) => (n, *count),
                Span::Time(time) => (count_below(keys, *time as i128, n), 0),
                Span::Duration(duration) => (count_below(keys, now as i128 - *duration as i128, n), 0),
            };
            let start = if available > skip_end {
                available - skip_end
            } else {
                0
            };
            let ghost target = query_selection(keys@, *query, now);
            assert(target == walk(keys@, start as int, initial_cursor(*span), *skip));
            proof {
                match end {
                    Span::Time(time) => lemma_keys_below_bound(keys@, *time as int, n as int),
                    Span::Duration(duration) => lemma_keys_below_bound(keys@, now - *duration, n as int),
                    Span::Count(_) => {},
                }
            }
            let mut cursor = match span {
                Span::Count(count) => Cursor::Count(*count),
                Span::Time(time) => Cursor::Since(*time as i128),
                Span::Duration(duration) => Cursor::Back(*duration),
            };
            let mut r: usize = start;
            loop
                invariant
                    n == keys@.len(),
                    r <= n,
                    target == query_selection(keys@, *query, now),
                    selected@.len() <= target.len(),
                    forall|k: int| 0 <= k < selected@.len() ==> selected@[k] == #[trigger] target[k],
                    target.subrange(selected@.len() as int, target.len() as int) == walk(keys@, r as int, cursor, *skip),
                decreases r,
            {
                let ghost len = selected@.len() as int;
                if r == 0 {
                    proof {
                        assert(target.subrange(len, target.len() as int).len() == 0);
                    }
                    return selected;
                }
                let key = keys[r - 1];
                let next = match cursor {
                    Cursor::Count(count) => if count == 0 {
                        None
                    } else {
                        Some(Cursor::Count(count - 1))
                    },
                    Cursor::Since(time) => if (key as i128) < time {
                        None
                    } else {
                        Some(Cursor::Since(time))
                    },
                    Cursor::Back(duration) => Some(Cursor::Since(key as i128 - duration as i128)),
                };
                assert(next == advance_cursor(cursor, key));
                match next {
                    None => {
                        proof {
                            assert(target.subrange(len, target.len() as int).len() == 0);
                        }
                        return selected;
                    },
                    Some(next_cursor) => {
                        let rest = r - 1;
                        let after = match skip {
                            Some(Span::Count(count)) => if rest > *count {
                                rest - *count
                            } else {
                                0
                            },
                            Some(Span::Duration(duration)) => count_below(keys, key as i128 - *duration as i128, rest),
                            _ => rest,
                        };
                        proof {
                            match skip {
                                Some(Span::Duration(duration)) => {
                                    lemma_keys_below_bound(keys@, key - *duration, rest as int);
                                },
                                _ => {},
                            }
                            assert(after == skipped(keys@, rest as int, key, *skip));
                            let w = walk(keys@, after as int, next_cursor, *skip);
                            assert(walk(keys@, r as int, cursor, *skip) == seq![rest as int] + w);
                            assert(target[len] == rest as int) by {
                                assert(target.subrange(len, target.len() as int)[0] == rest as int);
                            }
                            assert(target.subrange(len + 1, target.len() as int) =~= w) by {
                                assert(target.subrange(len + 1, target.len() as int) =~= target.subrange(
                                    len,
                                    target.len() as int,
                                ).drop_first());
                            }
                        }
                        selected.push(rest);
                        r = after;
                        cursor = next_cursor;
                    },
                }
            }
        },
    }
}

/// One end of a range.
#[derive(Debug, Clone, Copy, PartialEq, Eq, Structural)]
pub enum Bound<T> {
    /// The range includes this value.
    Included(T),
    /// The range ends just before this value.
    Excluded(T),
    /// The range is open at this end.
    Unbounded,
}

/// Whether `f` may be applied to the value of `bound`, if it has one.
pub open spec fn bound_accepted<T, U, F: FnOnce(T) -> U>(bound: Bound<T>, f: F) -> bool {
    match bound {
        Bound::Included(v) => f.requires((v,)),
        Bound::Excluded(v) => f.requires((v,)),
        Bound::Unbounded => true,
    }
}

/// Whether `mapped` is `bound` with its value mapped by `f`.
pub open spec fn bound_mapped<T, U, F: FnOnce(T) -> U>(bound: Bound<T>, f: F, mapped: Bound<U>) -> bool {
    match (bound, mapped) {
        (Bound::Included(v), Bound::Included(u)) => f.ensures((v,), u),
        (Bound::Excluded(v), Bound::Excluded(u)) => f.ensures((v,), u),
        (Bound::Unbounded, Bound::Unbounded) => true,
        _ => false,
    }
}

/// Map the value of a range end with `f`, keeping its kind.
pub fn map_bound<T, U, F: FnOnce(T) -> U>(bound: Bound<T>, f: F) -> (mapped: Bound<U>)
    requires
        bound_accepted(bound, f),
    ensures
        bound_mapped(bound, f, mapped),
{
    match bound {
        Bound::Included(v) => Bound::Included(f(v)),
        Bound::Excluded(v) => Bound::Excluded(f(v)),
        Bound::Unbounded => Bound::Unbounded,
    }
}

/// Map both ends of a range with `f`.
pub fn map_range_bound<'a, T, U, F: Fn(&'a T) -> U>(start: Bound<&'a T>, end: Bound<&'a T>, f: F) -> (mapped: (
    Bound<U>,
    Bound<U>,
))
    requires
        bound_accepted(start, f),
        bound_accepted(end, f),
    ensures
        bound_mapped(start, f, mapped.0),
        bound_mapped(end, f, mapped.1),
{
    let first = map_bound(start, |v: &'a T| -> (u: U)
        requires
            f.requires((v,)),
        ensures
            f.ensures((v,), u),
        { f(v) });
    let second = map_bound(end, |v: &'a T| -> (u: U)
        requires
            f.requires((v,)),
        ensures
            f.ensures((v,), u),
        { f(v) });
    (first, second)
}

/// A walk back through a series visits the newest remaining values first:
/// the positions it takes fall strictly and stay below `r`; a span of
/// `count` values takes at most `count` of them.
pub proof fn law_walk_newest_first(keys: Seq<i64>, r: int, cursor: Cursor, skip: Option<Span>)
    requires
        r >= 0,
    ensures
        forall|i: int| 0 <= i < walk(keys, r, cursor, skip).len() ==> 0 <= #[trigger] walk(keys, r, cursor, skip)[i] < r,
        forall|i: int, j: int|
            0 <= i < j < walk(keys, r, cursor, skip).len() ==> walk(keys, r, cursor, skip)[i] > walk(keys, r, cursor, skip)[j],
        cursor matches Cursor::Count(count) ==> walk(keys, r, cursor, skip).len() <= count,
    decreases r,
{
    if r > 0 && r <= keys.len() {
        let key = keys[r - 1];
        match advance_cursor(cursor, key) {
            None => {},
            Some(next) => {
                let rest = skipped(keys, r - 1, key, skip);
                match skip {
                    Some(Span::Duration(duration)) => {
                        lemma_keys_below_bound(keys, key - duration, r - 1);
                    },
                    _ => {},
                }
                law_walk_newest_first(keys, rest, next, skip);
                let tail = walk(keys, rest, next, skip);
                assert(walk(keys, r, cursor, skip) == seq![r - 1] + tail);
            },
        }
    }
}

} // verus!

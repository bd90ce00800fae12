//! The censorship checker: a transaction that stays in the queue for too
//! long means that the leader is faulty, dead or censoring.

use vstd::prelude::*;
use std::time::{Duration, Instant};
use crate::queue::{Queue, instant_now};

verus! {

/// After this time (in nanoseconds) a transaction should be committed.
pub const CENSORSHIP_TIMEOUT_NANOS: u128 = 10_000_000_000;

/// The nanoseconds of a duration.
pub uninterp spec fn duration_nanos(duration: Duration) -> u128;

/// The time from `earlier` to `later`, zero where `earlier` lies behind
/// `later`.
pub uninterp spec fn duration_between(later: Instant, earlier: Instant) -> Duration;

/// Calls `std::time::Instant::saturating_duration_since`: the time from
/// `earlier` to `later` (zero if `earlier` is the later one), which depends on
/// the two instants alone.
#[verifier::external_body]
fn instant_duration_since(later: &Instant, earlier: &Instant) -> (duration: Duration)
    ensures
        duration == duration_between(*later, *earlier),
{
    later.saturating_duration_since(*earlier)
}

/// Calls `std::time::Duration::as_nanos`: the whole nanoseconds of
/// `duration`, which depend on the duration alone.
#[verifier::external_body]
fn duration_as_nanos(duration: &Duration) -> (nanos: u128)
    ensures
        nanos == duration_nanos(*duration),
{
    duration.as_nanos()
}

/// Whether a transaction that has waited for `elapsed_nanos` nanoseconds
/// is overdue.
pub fn is_overdue(elapsed_nanos: u128) -> (overdue: bool)
    ensures
        overdue == (elapsed_nanos > CENSORSHIP_TIMEOUT_NANOS),
{
    elapsed_nanos > CENSORSHIP_TIMEOUT_NANOS
}

/// The insertion time of the oldest transaction in the `queue`, if any.
pub fn oldest_inserted<T>(queue: &Queue<T>) -> (inserted: Option<Instant>)
    ensures
        queue.entries_spec().len() == 0 ==> inserted.is_none(),
        queue.entries_spec().len() > 0 ==> inserted == Some(queue.entries_spec()[0].inserted_spec()),
{
    match queue.peek() {
        Some(entry) => Some(entry.inserted()),
        None => None,
    }
}

/// Whether the oldest transaction in the `queue` is overdue at the time
/// `now` (the queue is ordered by insertion time, so only the first one is
/// checked): more than the timeout passed from its insertion to `now`. An
/// empty queue holds no overdue transaction.
pub fn has_old_transactions_at<T>(queue: &Queue<T>, now: Instant) -> (old: bool)
    ensures
        queue.entries_spec().len() == 0 ==> !old,
        queue.entries_spec().len() > 0 ==> old == (duration_nanos(
            duration_between(now, queue.entries_spec()[0].inserted_spec()),
        ) > CENSORSHIP_TIMEOUT_NANOS),
{
    match oldest_inserted(queue) {
        Some(inserted) => {
            let elapsed = instant_duration_since(&now, &inserted);
            is_overdue(duration_as_nanos(&elapsed))
        },
        None => false,
    }
}

/// Whether the oldest transaction in the `queue` is overdue now: the clock
/// is read once and the answer is that of `has_old_transactions_at` for
/// that reading.
pub fn has_old_transactions<T>(queue: &Queue<T>) -> (old: bool)
    ensures
        queue.entries_spec().len() == 0 ==> !old,
        queue.entries_spec().len() > 0 ==> exists|now: Instant|
            old == (duration_nanos(#[trigger] duration_between(now, queue.entries_spec()[0].inserted_spec()))
                > CENSORSHIP_TIMEOUT_NANOS),
{
    let now = instant_now();
    has_old_transactions_at(queue, now)
}

} // verus!

//! The cache's governing properties, stated over the same spec functions its
//! operations are specified with, and proved once for every state and input.

use vstd::prelude::*;

use crate::cache::{
    acquire_outcome, acquired_entry, acquired_resolutions, entry_expired, entry_is_idle, entry_wf,
    released_entry, Acquire, CacheEntry, EntryState, ServiceHandle,
};

verus! {

/// The per-destination effect of a chain of `n` acquisitions, none of them
/// interleaved with a completion, release or eviction for that destination.
pub open spec fn acquire_chain(prev: Option<CacheEntry>, resolutions: u64, n: nat) -> (
    Option<CacheEntry>,
    u64,
)
    decreases n,
{
    if n == 0 {
        (prev, resolutions)
    } else {
        let (e1, r1) = acquire_chain(prev, resolutions, (n - 1) as nat);
        (Some(acquired_entry(e1, r1)), acquired_resolutions(e1, r1))
    }
}

/// Single resolution per live address: however many callers acquire the same
/// absent destination in a row — each seeing the entry the one before left —
/// the resolution counter rises exactly once, on the first acquisition. Every
/// later caller joins the in-flight attempt or shares the built handle.
pub proof fn lemma_single_flight(r0: u64, n: nat)
    requires
        r0 < u64::MAX,
        1 <= n,
    ensures
        acquire_chain(None, r0, n).0 is Some,
        acquire_chain(None, r0, n).1 == r0 + 1,
    decreases n,
{
    if n == 1 {
        assert(acquire_chain(None, r0, 0) == (None::<CacheEntry>, r0));
    } else {
        lemma_single_flight(r0, (n - 1) as nat);
    }
}

/// While an entry exists for a destination — pending, held or idle — further
/// acquisitions never start another resolution.
pub proof fn lemma_no_duplicate_resolution(e: CacheEntry, r0: u64, n: nat)
    ensures
        acquire_chain(Some(e), r0, n).0 is Some,
        acquire_chain(Some(e), r0, n).1 == r0,
    decreases n,
{
    if n > 0 {
        lemma_no_duplicate_resolution(e, r0, (n - 1) as nat);
    }
}

/// Idle eviction timing: after the last holder of a ready entry goes away at
/// `t_release`, the entry becomes idle from that instant. Before a full
/// `timeout` has passed it is not evictable, and a new request reuses the
/// same handle with the resolution counter unchanged; once `timeout` has
/// passed the timer may evict it, and the next request then finds no entry
/// and must start a fresh resolution.
pub proof fn lemma_idle_eviction_timing(
    h: ServiceHandle,
    t_release: u64,
    t_fire: u64,
    timeout: u64,
    r: u64,
)
    requires
        t_release <= t_fire,
        r < u64::MAX,
    ensures
        ({
            let held = CacheEntry {
                state: EntryState::Ready(h),
                handle_count: 1,
                idle_since: None,
                epoch: 1,
            };
            let idle = released_entry(held, t_release);
            &&& entry_is_idle(idle) && idle.idle_since == Some(t_release)
            &&& (t_fire - t_release < timeout ==> !entry_expired(idle, t_fire, timeout))
            &&& (t_fire - t_release >= timeout ==> entry_expired(idle, t_fire, timeout))
            &&& acquired_entry(Some(idle), r).state == EntryState::Ready(h)
            &&& acquire_outcome(Some(idle)) == Acquire::Cached(h)
            &&& acquired_resolutions(Some(idle), r) == r
            &&& acquire_outcome(None) == Acquire::Resolve
            &&& acquired_resolutions(None, r) == r + 1
        }),
{
}

/// A new request cancels a pending eviction: acquiring any existing entry
/// clears its idle timestamp, so a timer firing afterwards — however late —
/// finds nothing expired. Ties between a new request and the timer resolve
/// to reuse.
pub proof fn lemma_acquire_cancels_eviction(e: CacheEntry, r: u64, now: u64, timeout: u64)
    ensures
        !entry_expired(acquired_entry(Some(e), r), now, timeout),
{
}

/// Idempotent release: releasing an entry whose holders are all gone changes
/// nothing, so a double release leaves exactly the state a single release
/// left, and the holder count never goes negative.
pub proof fn lemma_release_idempotent(e: CacheEntry, t1: u64, t2: u64)
    requires
        e.handle_count <= 1,
    ensures
        e.handle_count == 0 ==> released_entry(e, t1) == e,
        released_entry(released_entry(e, t1), t2) == released_entry(e, t1),
{
}

/// A holder's failure is its own: releasing — also on a failed invocation —
/// never changes which service an entry holds, and releasing preserves a
/// well-formed entry. The one built terminal service stays the entry's until
/// the timer evicts the whole entry.
pub proof fn lemma_release_keeps_service(e: CacheEntry, now: u64)
    requires
        entry_wf(e),
    ensures
        released_entry(e, now).state == e.state,
        entry_wf(released_entry(e, now)),
{
}

} // verus!

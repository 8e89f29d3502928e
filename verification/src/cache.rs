//! The keyed discovery cache: per-destination lifecycle state, single-flight
//! resolution bookkeeping, and idle eviction.
//!
//! The cache is a deterministic state machine. Whatever in the running proxy
//! is asynchronous — the in-flight resolution, the idle timer — appears here
//! as an explicit event: the driver reports a resolution outcome with
//! `complete_ok` / `complete_err`, reports a holder going away with
//! `release`, and fires the per-entry timer with `evict_if_expired`, passing
//! the current time in milliseconds.

use vstd::prelude::*;

use crate::addr::DestAddr;

verus! {

/// An opaque handle to a terminal service, built once per cache entry and
/// shared by every concurrent holder for its destination.
#[derive(Clone, Copy, Debug, PartialEq, Eq, Structural)]
pub struct ServiceHandle {
    pub id: u64,
}

/// The lifecycle of one destination's entry.
#[derive(Clone, Copy, Debug, PartialEq, Eq, Structural)]
pub enum EntryState {
    /// Resolution and construction are in flight; at most one attempt per key.
    Pending,
    /// The terminal service has been built; the handle is shared by holders.
    Ready(ServiceHandle),
}

/// Per-destination bookkeeping. The entry is idle when it is `Ready` with no
/// holders left; `idle_since` then records when the last holder went away.
/// `epoch` is the ordinal of the resolution attempt that created the entry —
/// the value the cache's resolution counter took on creation — and tells
/// attempts for one destination apart across failures and evictions.
#[derive(Clone, Copy, Debug, PartialEq, Eq)]
pub struct CacheEntry {
    pub state: EntryState,
    pub handle_count: usize,
    pub idle_since: Option<u64>,
    pub epoch: u64,
}

/// Idle: the service is built but nobody holds it; the eviction clock runs.
pub open spec fn entry_is_idle(e: CacheEntry) -> bool {
    e.state is Ready && e.handle_count == 0
}

/// Well-formed entry: the idle timestamp is present exactly while idle.
pub open spec fn entry_wf(e: CacheEntry) -> bool {
    e.idle_since is Some <==> entry_is_idle(e)
}

/// The timer condition: an idle entry whose timestamp lies a full
/// `timeout` or more in the past may be evicted.
pub open spec fn entry_expired(e: CacheEntry, now: u64, timeout: u64) -> bool {
    match e.idle_since {
        Some(t) => t <= now && now - t >= timeout,
        None => false,
    }
}

/// One key/entry pair of the cache's map.
#[derive(Clone, Copy, Debug)]
pub struct Slot {
    pub key: DestAddr,
    pub entry: CacheEntry,
}

/// The association the slot sequence represents: the entry of the first slot
/// whose key is `k`, if any.
pub open spec fn lookup(s: Seq<Slot>, k: DestAddr) -> Option<CacheEntry>
    decreases s.len(),
{
    if s.len() == 0 {
        None
    } else if s[0].key == k {
        Some(s[0].entry)
    } else {
        lookup(s.drop_first(), k)
    }
}

/// No destination appears twice.
pub open spec fn unique_keys(s: Seq<Slot>) -> bool {
    forall|i: int, j: int| 0 <= i < j < s.len() ==> (#[trigger] s[i]).key != (#[trigger] s[j]).key
}

/// With unique keys, `lookup` is determined by the slots themselves: a slot
/// with key `k` fixes the result, and the result is `None` exactly when no
/// slot carries `k`.
pub proof fn lemma_lookup_char(s: Seq<Slot>, k: DestAddr)
    requires
        unique_keys(s),
    ensures
        forall|i: int|
            0 <= i < s.len() && (#[trigger] s[i]).key == k ==> lookup(s, k) == Some(s[i].entry),
        (lookup(s, k) is None) <==> (forall|i: int|
            0 <= i < s.len() ==> (#[trigger] s[i]).key != k),
    decreases s.len(),
{
    if s.len() == 0 {
    } else if s[0].key == k {
        assert forall|i: int| 0 <= i < s.len() && (#[trigger] s[i]).key == k implies lookup(s, k)
            == Some(s[i].entry) by {
            if i != 0 {
                assert(s[0].key != s[i].key);
            }
        }
    } else {
        let t = s.drop_first();
        assert forall|i: int, j: int| 0 <= i < j < t.len() implies (#[trigger] t[i]).key != (
        #[trigger] t[j]).key by {
            assert(t[i] == s[i + 1]);
            assert(t[j] == s[j + 1]);
        }
        lemma_lookup_char(t, k);
        assert forall|i: int| 0 <= i < s.len() && (#[trigger] s[i]).key == k implies lookup(s, k)
            == Some(s[i].entry) by {
            assert(i >= 1);
            assert(t[i - 1] == s[i]);
        }
        if lookup(s, k) is None {
            assert forall|i: int| 0 <= i < s.len() implies (#[trigger] s[i]).key != k by {
                if i >= 1 {
                    assert(t[i - 1] == s[i]);
                }
            }
        } else {
            assert(!(forall|i: int| 0 <= i < t.len() ==> (#[trigger] t[i]).key != k));
            let w = choose|i: int| 0 <= i < t.len() && (#[trigger] t[i]).key == k;
            assert(s[w + 1] == t[w]);
            assert(s[w + 1].key == k);
        }
    }
}

/// Replacing the entry at a slot changes exactly that key's association.
pub proof fn lemma_update_entry(s: Seq<Slot>, ix: int, e: CacheEntry)
    requires
        unique_keys(s),
        0 <= ix < s.len(),
    ensures
        ({
            let s2 = s.update(ix, Slot { key: s[ix].key, entry: e });
            &&& unique_keys(s2)
            &&& lookup(s2, s[ix].key) == Some(e)
            &&& forall|k: DestAddr| k != s[ix].key ==> lookup(s2, k) == lookup(s, k)
        }),
{
    let s2 = s.update(ix, Slot { key: s[ix].key, entry: e });
    assert(forall|i: int| 0 <= i < s2.len() ==> (#[trigger] s2[i]).key == s[i].key);
    assert(unique_keys(s2));
    lemma_lookup_char(s2, s[ix].key);
    assert(s2[ix] == Slot { key: s[ix].key, entry: e });
    assert(lookup(s2, s[ix].key) == Some(s2[ix].entry));
    assert forall|k: DestAddr| k != s[ix].key implies lookup(s2, k) == lookup(s, k) by {
        lemma_lookup_char(s, k);
        lemma_lookup_char(s2, k);
        if lookup(s, k) is None {
            assert(forall|i: int| 0 <= i < s2.len() ==> (#[trigger] s2[i]).key != k);
        } else {
            let w = choose|i: int| 0 <= i < s.len() && (#[trigger] s[i]).key == k;
            assert(w != ix);
            assert(s2[w] == s[w]);
            assert(lookup(s, k) == Some(s[w].entry));
            assert(lookup(s2, k) == Some(s2[w].entry));
        }
    }
}

/// Appending a slot for a key the map does not hold adds exactly that
/// association and keeps every other one.
pub proof fn lemma_push_new(s: Seq<Slot>, slot: Slot)
    requires
        unique_keys(s),
        lookup(s, slot.key) is None,
    ensures
        ({
            let s2 = s.push(slot);
            &&& unique_keys(s2)
            &&& lookup(s2, slot.key) == Some(slot.entry)
            &&& forall|k: DestAddr| k != slot.key ==> lookup(s2, k) == lookup(s, k)
        }),
{
    let s2 = s.push(slot);
    lemma_lookup_char(s, slot.key);
    assert(forall|i: int| 0 <= i < s.len() ==> (#[trigger] s[i]).key != slot.key);
    assert(forall|i: int| 0 <= i < s.len() ==> s2[i] == s[i]);
    assert(s2[s.len() as int] == slot);
    assert(unique_keys(s2));
    lemma_lookup_char(s2, slot.key);
    assert(lookup(s2, slot.key) == Some(slot.entry));
    assert forall|k: DestAddr| k != slot.key implies lookup(s2, k) == lookup(s, k) by {
        lemma_lookup_char(s, k);
        lemma_lookup_char(s2, k);
        if lookup(s, k) is None {
            assert(forall|i: int| 0 <= i < s2.len() ==> (#[trigger] s2[i]).key != k);
        } else {
            let w = choose|i: int| 0 <= i < s.len() && (#[trigger] s[i]).key == k;
            assert(lookup(s, k) == Some(s[w].entry));
            assert(s2[w] == s[w]);
            assert(lookup(s2, k) == Some(s2[w].entry));
        }
    }
}

/// Removing a slot clears exactly that key's association and keeps every
/// other one.
pub proof fn lemma_remove_at(s: Seq<Slot>, ix: int)
    requires
        unique_keys(s),
        0 <= ix < s.len(),
    ensures
        ({
            let s2 = s.remove(ix);
            &&& unique_keys(s2)
            &&& lookup(s2, s[ix].key) is None
            &&& forall|k: DestAddr| k != s[ix].key ==> lookup(s2, k) == lookup(s, k)
        }),
{
    let s2 = s.remove(ix);
    s.remove_ensures(ix);
    assert forall|i: int, j: int| 0 <= i < j < s2.len() implies (#[trigger] s2[i]).key != (
    #[trigger] s2[j]).key by {
        let i0 = if i < ix { i } else { i + 1 };
        let j0 = if j < ix { j } else { j + 1 };
        assert(s2[i] == s[i0]);
        assert(s2[j] == s[j0]);
    }
    lemma_lookup_char(s, s[ix].key);
    lemma_lookup_char(s2, s[ix].key);
    assert forall|i: int| 0 <= i < s2.len() implies (#[trigger] s2[i]).key != s[ix].key by {
        let i0 = if i < ix { i } else { i + 1 };
        assert(s2[i] == s[i0]);
        assert(i0 != ix);
    }
    assert(lookup(s2, s[ix].key) is None);
    assert forall|k: DestAddr| k != s[ix].key implies lookup(s2, k) == lookup(s, k) by {
        lemma_lookup_char(s, k);
        lemma_lookup_char(s2, k);
        if lookup(s, k) is None {
            assert forall|i: int| 0 <= i < s2.len() implies (#[trigger] s2[i]).key != k by {
                let i0 = if i < ix { i } else { i + 1 };
                assert(s2[i] == s[i0]);
            }
        } else {
            let w = choose|i: int| 0 <= i < s.len() && (#[trigger] s[i]).key == k;
            assert(lookup(s, k) == Some(s[w].entry));
            let w2 = if w < ix { w } else { w - 1 };
            assert(s2[w2] == s[w]);
            assert(lookup(s2, k) == Some(s2[w2].entry));
        }
    }
}

/// What an acquisition tells the caller to do.
#[derive(Clone, Copy, Debug, PartialEq, Eq, Structural)]
pub enum Acquire {
    /// The service is built; invoke this shared handle.
    Cached(ServiceHandle),
    /// Another caller's resolution is in flight; await its outcome.
    Wait,
    /// A fresh entry was created; the caller must start the one resolution
    /// for this destination and report its outcome.
    Resolve,
}

/// The entry after an acquisition: a fresh pending entry with one interested
/// caller and the next attempt ordinal, or the existing entry with one more
/// holder and any armed idle timer cancelled. `r` is the resolution counter
/// before the acquisition.
pub open spec fn acquired_entry(prev: Option<CacheEntry>, r: u64) -> CacheEntry {
    match prev {
        None => CacheEntry {
            state: EntryState::Pending,
            handle_count: 1,
            idle_since: None,
            epoch: (r + 1) as u64,
        },
        Some(e) => CacheEntry {
            state: e.state,
            handle_count: (e.handle_count + 1) as usize,
            idle_since: None,
            epoch: e.epoch,
        },
    }
}

/// The resolution counter after an acquisition: it rises exactly when no
/// entry existed, i.e. when a new resolution is started.
pub open spec fn acquired_resolutions(prev: Option<CacheEntry>, r: u64) -> u64 {
    if prev is None {
        (r + 1) as u64
    } else {
        r
    }
}

/// The caller's instruction after an acquisition.
pub open spec fn acquire_outcome(prev: Option<CacheEntry>) -> Acquire {
    match prev {
        None => Acquire::Resolve,
        Some(e) => match e.state {
            EntryState::Pending => Acquire::Wait,
            EntryState::Ready(h) => Acquire::Cached(h),
        },
    }
}

/// The entry once its resolution and construction have completed: the built
/// service is kept; if every interested caller went away while the attempt
/// was in flight, the entry is idle from `now` on.
pub open spec fn completed_entry(e: CacheEntry, h: ServiceHandle, now: u64) -> CacheEntry {
    CacheEntry {
        state: EntryState::Ready(h),
        handle_count: e.handle_count,
        idle_since: if e.handle_count == 0 {
            Some(now)
        } else {
            None
        },
        epoch: e.epoch,
    }
}

/// The entry after one holder releases it. Releasing with no holders left is
/// a no-op; when the last holder goes, an idle clock starts at `now`.
pub open spec fn released_entry(e: CacheEntry, now: u64) -> CacheEntry {
    if e.handle_count == 0 {
        e
    } else {
        CacheEntry {
            state: e.state,
            handle_count: (e.handle_count - 1) as usize,
            idle_since: if e.handle_count == 1 && e.state is Ready {
                Some(now)
            } else {
                None
            },
            epoch: e.epoch,
        }
    }
}

/// The address-keyed discovery cache.
///
/// `resolutions` counts the resolutions the cache has asked its driver to
/// start — the observable that the single-flight property is stated over.
pub struct DiscoveryCache {
    pub slots: Vec<Slot>,
    pub idle_timeout: u64,
    pub resolutions: u64,
}

impl DiscoveryCache {
    /// Well-formed: one entry per destination, each entry well-formed.
    pub open spec fn wf(self) -> bool {
        &&& unique_keys(self.slots@)
        &&& forall|i: int| 0 <= i < self.slots@.len() ==> entry_wf((#[trigger] self.slots@[i]).entry)
    }

    /// The mathematical content of the cache: destination to entry.
    pub open spec fn spec_get(self, k: DestAddr) -> Option<CacheEntry> {
        lookup(self.slots@, k)
    }

    pub fn new(idle_timeout: u64) -> (c: DiscoveryCache)
        ensures
            c.wf(),
            c.idle_timeout == idle_timeout,
            c.resolutions == 0,
            forall|k: DestAddr| (#[trigger] c.spec_get(k)) is None,
    {
        DiscoveryCache { slots: Vec::new(), idle_timeout, resolutions: 0 }
    }

    /// The index of the slot holding `k`, if any.
    fn find(&self, k: DestAddr) -> (r: Option<usize>)
        requires
            unique_keys(self.slots@),
        ensures
            match r {
                Some(ix) => ix < self.slots@.len() && self.slots@[ix as int].key == k
                    && self.spec_get(k) == Some(self.slots@[ix as int].entry),
                None => self.spec_get(k) is None,
            },
    {
        proof {
            lemma_lookup_char(self.slots@, k);
        }
        let n = self.slots.len();
        let mut i: usize = 0;
        while i < n
            invariant
                unique_keys(self.slots@),
                n == self.slots@.len(),
                i <= n,
                forall|j: int| 0 <= j < i ==> (#[trigger] self.slots@[j]).key != k,
            decreases n - i,
        {
            if self.slots[i].key == k {
                proof {
                    lemma_lookup_char(self.slots@, k);
                }
                return Some(i);
            }
            i += 1;
        }
        None
    }

    /// A snapshot of the entry for `addr`, if the cache holds one.
    pub fn entry(&self, addr: DestAddr) -> (r: Option<CacheEntry>)
        requires
            self.wf(),
        ensures
            r == self.spec_get(addr),
    {
        match self.find(addr) {
            Some(ix) => Some(self.slots[ix].entry),
            None => None,
        }
    }

    /// Obtains (or begins to create) the entry for `addr`.
    ///
    /// An existing entry — pending, held, or idle — is reused: its holder
    /// count rises and any armed idle timer is cancelled; no new resolution
    /// starts. Only for an absent destination is a pending entry created and
    /// the caller told to start the one resolution for it.
    pub fn get_or_create(&mut self, addr: DestAddr) -> (r: Acquire)
        requires
            old(self).wf(),
            old(self).resolutions < u64::MAX,
            (match old(self).spec_get(addr) {
                Some(e) => e.handle_count < usize::MAX,
                None => true,
            }),
        ensures
            final(self).wf(),
            final(self).idle_timeout == old(self).idle_timeout,
            final(self).resolutions == acquired_resolutions(
                old(self).spec_get(addr),
                old(self).resolutions,
            ),
            final(self).spec_get(addr) == Some(
                acquired_entry(old(self).spec_get(addr), old(self).resolutions),
            ),
            forall|k: DestAddr|
                k != addr ==> #[trigger] final(self).spec_get(k) == old(self).spec_get(k),
            r == acquire_outcome(old(self).spec_get(addr)),
    {
        match self.find(addr) {
            Some(ix) => {
                let e = self.slots[ix].entry;
                let updated = CacheEntry {
                    state: e.state,
                    handle_count: e.handle_count + 1,
                    idle_since: None,
                    epoch: e.epoch,
                };
                proof {
                    lemma_update_entry(self.slots@, ix as int, updated);
                }
                self.slots[ix] = Slot { key: addr, entry: updated };
                match e.state {
                    EntryState::Pending => Acquire::Wait,
                    EntryState::Ready(h) => Acquire::Cached(h),
                }
            },
            None => {
                let slot = Slot {
                    key: addr,
                    entry: CacheEntry {
                        state: EntryState::Pending,
                        handle_count: 1,
                        idle_since: None,
                        epoch: self.resolutions + 1,
                    },
                };
                proof {
                    lemma_push_new(self.slots@, slot);
                }
                self.slots.push(slot);
                self.resolutions = self.resolutions + 1;
                Acquire::Resolve
            },
        }
    }

    /// Reports that the single in-flight resolution and construction for
    /// `addr` succeeded, handing the cache the built service. Every caller
    /// waiting on the attempt now shares `handle`.
    pub fn complete_ok(&mut self, addr: DestAddr, handle: ServiceHandle, now: u64)
        requires
            old(self).wf(),
            old(self).spec_get(addr) matches Some(e) && e.state is Pending,
        ensures
            final(self).wf(),
            final(self).idle_timeout == old(self).idle_timeout,
            final(self).resolutions == old(self).resolutions,
            (match old(self).spec_get(addr) {
                Some(e) => final(self).spec_get(addr) == Some(completed_entry(e, handle, now)),
                None => false,
            }),
            forall|k: DestAddr|
                k != addr ==> #[trigger] final(self).spec_get(k) == old(self).spec_get(k),
    {
        if let Some(ix) = self.find(addr) {
            let e = self.slots[ix].entry;
            let updated = CacheEntry {
                state: EntryState::Ready(handle),
                handle_count: e.handle_count,
                idle_since: if e.handle_count == 0 {
                    Some(now)
                } else {
                    None
                },
                epoch: e.epoch,
            };
            proof {
                lemma_update_entry(self.slots@, ix as int, updated);
            }
            self.slots[ix] = Slot { key: addr, entry: updated };
        }
    }

    /// Reports that the resolution or construction for `addr` failed. The
    /// entry is removed, not kept as a cached failure: the very next request
    /// for `addr` starts a fresh attempt. Every caller waiting on the failed
    /// attempt is handed the failure by the driver.
    pub fn complete_err(&mut self, addr: DestAddr)
        requires
            old(self).wf(),
            old(self).spec_get(addr) matches Some(e) && e.state is Pending,
        ensures
            final(self).wf(),
            final(self).idle_timeout == old(self).idle_timeout,
            final(self).resolutions == old(self).resolutions,
            final(self).spec_get(addr) is None,
            forall|k: DestAddr|
                k != addr ==> #[trigger] final(self).spec_get(k) == old(self).spec_get(k),
    {
        if let Some(ix) = self.find(addr) {
            proof {
                lemma_remove_at(self.slots@, ix as int);
            }
            self.slots.remove(ix);
        }
    }

    /// One holder of `addr` goes away: its connection ended, its task was
    /// aborted, or its invocation failed. The count never goes below zero —
    /// a release with no holders left changes nothing — and the entry itself
    /// is never removed here: eviction is the timer's alone. When the last
    /// holder goes, the idle clock starts at `now`.
    pub fn release(&mut self, addr: DestAddr, now: u64)
        requires
            old(self).wf(),
        ensures
            final(self).wf(),
            final(self).idle_timeout == old(self).idle_timeout,
            final(self).resolutions == old(self).resolutions,
            final(self).spec_get(addr) == (match old(self).spec_get(addr) {
                Some(e) => Some(released_entry(e, now)),
                None => None::<CacheEntry>,
            }),
            forall|k: DestAddr|
                k != addr ==> #[trigger] final(self).spec_get(k) == old(self).spec_get(k),
    {
        if let Some(ix) = self.find(addr) {
            let e = self.slots[ix].entry;
            if e.handle_count > 0 {
                let updated = CacheEntry {
                    state: e.state,
                    handle_count: e.handle_count - 1,
                    idle_since: if e.handle_count == 1 && matches!(e.state, EntryState::Ready(_)) {
                        Some(now)
                    } else {
                        None
                    },
                    epoch: e.epoch,
                };
                proof {
                    lemma_update_entry(self.slots@, ix as int, updated);
                }
                self.slots[ix] = Slot { key: addr, entry: updated };
            }
        }
    }

    /// The per-entry idle timer fires at time `now`: the entry for `addr` is
    /// removed exactly if it is still idle and a full `idle_timeout` has
    /// passed since its last holder went away. A request that arrived first
    /// cancelled the idle clock, so the firing is then a no-op — ties favor
    /// reuse over eviction.
    pub fn evict_if_expired(&mut self, addr: DestAddr, now: u64) -> (evicted: bool)
        requires
            old(self).wf(),
        ensures
            final(self).wf(),
            final(self).idle_timeout == old(self).idle_timeout,
            final(self).resolutions == old(self).resolutions,
            evicted == (match old(self).spec_get(addr) {
                Some(e) => entry_expired(e, now, old(self).idle_timeout),
                None => false,
            }),
            final(self).spec_get(addr) == (if evicted {
                None::<CacheEntry>
            } else {
                old(self).spec_get(addr)
            }),
            forall|k: DestAddr|
                k != addr ==> #[trigger] final(self).spec_get(k) == old(self).spec_get(k),
    {
        if let Some(ix) = self.find(addr) {
            let e = self.slots[ix].entry;
            let expired = match e.idle_since {
                Some(t) => t <= now && now - t >= self.idle_timeout,
                None => false,
            };
            if expired {
                proof {
                    lemma_remove_at(self.slots@, ix as int);
                }
                self.slots.remove(ix);
                return true;
            }
        }
        false
    }
}

} // verus!

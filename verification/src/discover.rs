//! The outward-facing discovery service: the policy gate in front of the
//! cache, and the record handed to the terminal-service factory.

use vstd::prelude::*;

use crate::addr::{DestAddr, Policy};
use crate::cache::{
    acquire_outcome, acquired_entry, acquired_resolutions, released_entry, Acquire, CacheEntry,
    DiscoveryCache, EntryState, ServiceHandle,
};

verus! {

/// Opaque routing data obtained by resolving a destination.
#[derive(Clone, Copy, Debug, PartialEq, Eq, Structural)]
pub struct Profile {
    pub id: u64,
}

impl Default for Profile {
    fn default() -> (p: Profile)
        ensures
            p.id == 0,
    {
        Profile { id: 0 }
    }
}

/// The immutable record the terminal-service factory is built from: the
/// destination, and its profile — present exactly when discovery was
/// permitted and resolution completed before construction.
#[derive(Clone, Copy, Debug, PartialEq, Eq)]
pub struct Discovery {
    pub destination: DestAddr,
    pub profile: Option<Profile>,
}

/// What `new_service` hands back for one accepted connection. Nothing has
/// been resolved or built yet in either case.
#[derive(Clone, Copy, Debug, PartialEq, Eq)]
pub enum SvcPlan {
    /// The policy denied discovery: the deliberate no-discovery path, not a
    /// failure. The terminal service is to be built directly from this
    /// profile-less record; cache and resolver are never touched.
    Bypass(Discovery),
    /// The policy permitted discovery: a lazy handle on the cached entry for
    /// this destination. Resolution is driven only when the service is first
    /// driven to readiness, through `DiscoveryCache::get_or_create`.
    Discovered(DestAddr),
}

/// The discovery service: one policy gate and one cache, shared by every
/// connection the proxy accepts.
pub struct Discover {
    pub policy: Policy,
    pub cache: DiscoveryCache,
}

impl Discover {
    pub open spec fn wf(self) -> bool {
        self.policy.wf() && self.cache.wf()
    }

    pub fn new(policy: Policy, idle_timeout: u64) -> (d: Discover)
        requires
            policy.wf(),
        ensures
            d.wf(),
            d.policy == policy,
            d.cache.idle_timeout == idle_timeout,
            d.cache.resolutions == 0,
            forall|k: DestAddr| (#[trigger] d.cache.spec_get(k)) is None,
    {
        Discover { policy, cache: DiscoveryCache::new(idle_timeout) }
    }

    /// The plan for a destination: bypass with an absent profile when the
    /// gate denies, a lazy cache handle when it permits.
    pub open spec fn spec_plan(self, addr: DestAddr) -> SvcPlan {
        if self.policy.spec_permits(addr) {
            SvcPlan::Discovered(addr)
        } else {
            SvcPlan::Bypass(Discovery { destination: addr, profile: None })
        }
    }

    /// Hands out the service for one accepted connection.
    ///
    /// Cheap and read-only: it consults the policy and nothing else. Because
    /// it takes `&self`, merely obtaining a service can neither start a
    /// resolution nor build a terminal service — the returned plan is driven
    /// later, on the first readiness or invocation attempt.
    pub fn new_service(&self, addr: DestAddr) -> (p: SvcPlan)
        requires
            self.wf(),
        ensures
            p == self.spec_plan(addr),
    {
        if self.policy.permits(addr) {
            SvcPlan::Discovered(addr)
        } else {
            SvcPlan::Bypass(Discovery { destination: addr, profile: None })
        }
    }

    /// The record for a destination whose resolution completed: the profile
    /// is present exactly on this path.
    pub fn resolved_discovery(addr: DestAddr, profile: Profile) -> (d: Discovery)
        ensures
            d.destination == addr,
            d.profile == Some(profile),
    {
        Discovery { destination: addr, profile: Some(profile) }
    }
}

/// Where one connection's service stands.
#[derive(Clone, Copy, Debug, PartialEq, Eq)]
pub enum TaskState {
    /// Holds its plan; the cache has not been touched for this connection.
    Created(SvcPlan),
    /// Counted on the entry for this destination, awaiting the outcome of
    /// the resolution attempt with this epoch.
    Waiting(DestAddr, u64),
    /// Counted on the entry; the shared terminal service may be invoked.
    Ready(DestAddr, ServiceHandle),
    /// No-discovery path: the terminal service is the driver's, built
    /// directly from this profile-less record.
    Direct(Discovery),
    /// The connection ended: closed, failed, or aborted.
    Done,
}

/// What one readiness poll asks of the driver.
#[derive(Clone, Copy, Debug, PartialEq, Eq)]
pub enum Drive {
    /// The polling connection must start the one resolution for its
    /// destination and report the outcome to the cache.
    StartResolve(DestAddr),
    /// Another task's attempt is in flight; poll again once it completes.
    Suspend,
    /// Ready: invoke the shared terminal service.
    Invoke(ServiceHandle),
    /// Ready on the no-discovery path: build the terminal service from this
    /// record and invoke it.
    InvokeDirect(Discovery),
    /// The awaited resolution attempt failed; this connection fails with
    /// that same error, handed to it by the driver.
    Failed,
}

/// Nothing about the cache changed.
pub open spec fn cache_unchanged(a: DiscoveryCache, b: DiscoveryCache) -> bool {
    a.slots@ == b.slots@ && a.idle_timeout == b.idle_timeout && a.resolutions == b.resolutions
}

/// The service `new_service` hands a connection: lazy until polled, counted
/// on the cache entry from the first poll to `finish`, never resolving what
/// another task already resolves.
pub struct ConnService {
    pub state: TaskState,
}

impl ConnService {
    pub fn new(plan: SvcPlan) -> (s: ConnService)
        ensures
            s.state == TaskState::Created(plan),
    {
        ConnService { state: TaskState::Created(plan) }
    }

    /// Drives the service towards readiness by one step.
    ///
    /// The first poll of a discovered plan is what touches the cache — never
    /// the construction of the service. A poll while waiting observes the
    /// single in-flight attempt it joined: its success, or — the entry gone
    /// or resupplanted under a later epoch — its failure.
    pub fn poll_ready(&mut self, cache: &mut DiscoveryCache) -> (d: Drive)
        requires
            old(cache).wf(),
            !(old(self).state is Done),
            old(cache).resolutions < u64::MAX,
            (match old(self).state {
                TaskState::Created(plan) => match plan {
                    SvcPlan::Discovered(a) => match old(cache).spec_get(a) {
                        Some(e) => e.handle_count < usize::MAX,
                        None => true,
                    },
                    _ => true,
                },
                _ => true,
            }),
        ensures
            final(cache).wf(),
            final(cache).idle_timeout == old(cache).idle_timeout,
            (match old(self).state {
                TaskState::Created(plan) => match plan {
                    SvcPlan::Bypass(rec) => {
                        &&& cache_unchanged(*old(cache), *final(cache))
                        &&& final(self).state == TaskState::Direct(rec)
                        &&& d == Drive::InvokeDirect(rec)
                    },
                    SvcPlan::Discovered(a) => {
                        &&& final(cache).spec_get(a) == Some(
                            acquired_entry(old(cache).spec_get(a), old(cache).resolutions),
                        )
                        &&& final(cache).resolutions == acquired_resolutions(
                            old(cache).spec_get(a),
                            old(cache).resolutions,
                        )
                        &&& (forall|k: DestAddr|
                            k != a ==> #[trigger] final(cache).spec_get(k) == old(cache).spec_get(
                                k,
                            ))
                        &&& (match acquire_outcome(old(cache).spec_get(a)) {
                            Acquire::Resolve => final(self).state == TaskState::Waiting(
                                a,
                                (old(cache).resolutions + 1) as u64,
                            ) && d == Drive::StartResolve(a),
                            Acquire::Wait => final(self).state == TaskState::Waiting(
                                a,
                                acquired_entry(
                                    old(cache).spec_get(a),
                                    old(cache).resolutions,
                                ).epoch,
                            ) && d == Drive::Suspend,
                            Acquire::Cached(h) => final(self).state == TaskState::Ready(a, h) && d
                                == Drive::Invoke(h),
                        })
                    },
                },
                TaskState::Waiting(a, ep) => {
                    &&& cache_unchanged(*old(cache), *final(cache))
                    &&& (match old(cache).spec_get(a) {
                        Some(e) => if e.epoch == ep {
                            match e.state {
                                EntryState::Pending => final(self).state == old(self).state && d
                                    == Drive::Suspend,
                                EntryState::Ready(h) => final(self).state == TaskState::Ready(a, h)
                                    && d == Drive::Invoke(h),
                            }
                        } else {
                            final(self).state == TaskState::Done && d == Drive::Failed
                        },
                        None => final(self).state == TaskState::Done && d == Drive::Failed,
                    })
                },
                TaskState::Ready(a, h) => {
                    &&& cache_unchanged(*old(cache), *final(cache))
                    &&& final(self).state == old(self).state
                    &&& d == Drive::Invoke(h)
                },
                TaskState::Direct(rec) => {
                    &&& cache_unchanged(*old(cache), *final(cache))
                    &&& final(self).state == old(self).state
                    &&& d == Drive::InvokeDirect(rec)
                },
                TaskState::Done => false,
            }),
    {
        match self.state {
            TaskState::Created(plan) => match plan {
                SvcPlan::Bypass(rec) => {
                    self.state = TaskState::Direct(rec);
                    Drive::InvokeDirect(rec)
                },
                SvcPlan::Discovered(a) => {
                    let next_epoch = cache.resolutions + 1;
                    match cache.get_or_create(a) {
                        Acquire::Resolve => {
                            self.state = TaskState::Waiting(a, next_epoch);
                            Drive::StartResolve(a)
                        },
                        Acquire::Wait => {
                            let e = cache.entry(a).unwrap();
                            self.state = TaskState::Waiting(a, e.epoch);
                            Drive::Suspend
                        },
                        Acquire::Cached(h) => {
                            self.state = TaskState::Ready(a, h);
                            Drive::Invoke(h)
                        },
                    }
                },
            },
            TaskState::Waiting(a, ep) => match cache.entry(a) {
                Some(e) => {
                    if e.epoch == ep {
                        match e.state {
                            EntryState::Pending => Drive::Suspend,
                            EntryState::Ready(h) => {
                                self.state = TaskState::Ready(a, h);
                                Drive::Invoke(h)
                            },
                        }
                    } else {
                        self.state = TaskState::Done;
                        Drive::Failed
                    }
                },
                None => {
                    self.state = TaskState::Done;
                    Drive::Failed
                },
            },
            TaskState::Ready(_, h) => Drive::Invoke(h),
            TaskState::Direct(rec) => Drive::InvokeDirect(rec),
            TaskState::Done => Drive::Failed,
        }
    }

    /// Ends this connection's interest — its invocation returned or failed,
    /// or its task was aborted — and releases its hold on the entry, exactly
    /// once. A task that only held a plan, ran the bypass path, or whose
    /// awaited attempt already failed holds no count, and the cache is left
    /// alone; in particular an abort never cancels an attempt other waiters
    /// share.
    pub fn finish(&mut self, cache: &mut DiscoveryCache, now: u64)
        requires
            old(cache).wf(),
        ensures
            final(cache).wf(),
            final(cache).idle_timeout == old(cache).idle_timeout,
            final(cache).resolutions == old(cache).resolutions,
            final(self).state is Done,
            (match old(self).state {
                TaskState::Waiting(a, ep) => (match old(cache).spec_get(a) {
                    Some(e) => if e.epoch == ep {
                        final(cache).spec_get(a) == Some(released_entry(e, now)) && (forall|
                            k: DestAddr,
                        |
                            k != a ==> #[trigger] final(cache).spec_get(k) == old(cache).spec_get(
                                k,
                            ))
                    } else {
                        cache_unchanged(*old(cache), *final(cache))
                    },
                    None => cache_unchanged(*old(cache), *final(cache)),
                }),
                TaskState::Ready(a, _) => final(cache).spec_get(a) == (match old(cache).spec_get(
                    a,
                ) {
                    Some(e) => Some(released_entry(e, now)),
                    None => None::<CacheEntry>,
                }) && (forall|k: DestAddr|
                    k != a ==> #[trigger] final(cache).spec_get(k) == old(cache).spec_get(k)),
                _ => cache_unchanged(*old(cache), *final(cache)),
            }),
    {
        match self.state {
            TaskState::Waiting(a, ep) => {
                match cache.entry(a) {
                    Some(e) => {
                        if e.epoch == ep {
                            cache.release(a, now);
                        }
                    },
                    None => {},
                }
            },
            TaskState::Ready(a, _) => {
                cache.release(a, now);
            },
            _ => {},
        }
        self.state = TaskState::Done;
    }
}

} // verus!

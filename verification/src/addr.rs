//! Destination addresses and the allow-discovery policy gate.

use vstd::prelude::*;

verus! {

/// A concrete destination: an IPv4 address and a port, the cache key.
/// Equality is address-exact; no normalization.
#[derive(Clone, Copy, Debug, PartialEq, Eq, Hash, Structural)]
pub struct DestAddr {
    pub ip: u32,
    pub port: u16,
}

/// An IPv4 network: every address that shares the top `prefix` bits of `base`.
/// A prefix of 0 matches every address; a prefix of 32 matches `base` alone.
#[derive(Clone, Copy, Debug, PartialEq, Eq, Structural)]
pub struct Network {
    pub base: u32,
    pub prefix: u8,
}

impl Network {
    pub open spec fn wf(self) -> bool {
        self.prefix <= 32
    }

    /// Whether `ip` lies in this network.
    pub open spec fn spec_contains(self, ip: u32) -> bool {
        self.prefix == 0 || (ip >> ((32 - self.prefix) as u32)) == (self.base >> ((32
            - self.prefix) as u32))
    }

    pub fn contains(&self, ip: u32) -> (r: bool)
        requires
            self.wf(),
        ensures
            r == self.spec_contains(ip),
    {
        if self.prefix == 0 {
            true
        } else {
            let sh: u32 = 32 - (self.prefix as u32);
            (ip >> sh) == (self.base >> sh)
        }
    }
}

/// The allow-discovery policy: destinations inside one of these networks may
/// be resolved; every other destination bypasses discovery.
#[derive(Debug)]
pub struct Policy {
    pub nets: Vec<Network>,
}

impl Policy {
    pub open spec fn wf(self) -> bool {
        forall|i: int| 0 <= i < self.nets@.len() ==> (#[trigger] self.nets@[i]).wf()
    }

    /// Discovery is permitted exactly when some allowed network contains the ip.
    pub open spec fn spec_permits(self, addr: DestAddr) -> bool {
        exists|i: int| 0 <= i < self.nets@.len() && (#[trigger] self.nets@[i]).spec_contains(addr.ip)
    }

    /// An empty policy: permits discovery for no destination.
    pub fn empty() -> (p: Policy)
        ensures
            p.wf(),
            p.nets@.len() == 0,
            forall|a: DestAddr| !(#[trigger] p.spec_permits(a)),
    {
        Policy { nets: Vec::new() }
    }

    /// Adds one allowed network to the policy.
    pub fn allow(&mut self, net: Network)
        requires
            old(self).wf(),
            net.wf(),
        ensures
            final(self).wf(),
            final(self).nets@ == old(self).nets@.push(net),
    {
        self.nets.push(net);
    }

    /// The address gate: pure and total, no side effects, no failure mode.
    pub fn permits(&self, addr: DestAddr) -> (r: bool)
        requires
            self.wf(),
        ensures
            r == self.spec_permits(addr),
    {
        let n = self.nets.len();
        let mut i: usize = 0;
        while i < n
            invariant
                self.wf(),
                n == self.nets@.len(),
                i <= n,
                forall|j: int| 0 <= j < i ==> !(#[trigger] self.nets@[j]).spec_contains(addr.ip),
            decreases n - i,
        {
            if self.nets[i].contains(addr.ip) {
                assert(self.nets@[i as int].spec_contains(addr.ip));
                return true;
            }
            i += 1;
        }
        false
    }
}

/// Builds the u32 form of the dotted-quad address `a.b.c.d`.
pub fn ipv4(a: u8, b: u8, c: u8, d: u8) -> (ip: u32)
    ensures
        ip == (a as u32) * 0x1000000 + (b as u32) * 0x10000 + (c as u32) * 0x100 + (d as u32),
{
    (a as u32) * 0x1000000 + (b as u32) * 0x10000 + (c as u32) * 0x100 + (d as u32)
}

} // verus!

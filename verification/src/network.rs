//! Discovery of robots on the network: the addresses that are probed, the
//! order in which an address is probed for an Xbee and for the
//! Fernbedienung service, and what a Fernbedienung host's name says about
//! the robot.
use vstd::prelude::*;
use ipnet::Ipv4Net;
use crate::text::is_text;

verus! {

/// The network part of an address with a prefix of `prefix` bits.
pub open spec fn netmask(prefix: u8) -> u32 {
    if prefix == 0 { 0 } else { 0xffff_ffffu32 << ((32 - prefix) as u32) }
}

/// The host part of an address with a prefix of `prefix` bits.
pub open spec fn hostmask(prefix: u8) -> u32 {
    if prefix >= 32 { 0 } else { 0xffff_ffffu32 >> (prefix as u32) }
}

/// The first host address: past the network address, unless the prefix
/// is 31 or 32 bits.
pub open spec fn first_host(addr: u32, prefix: u8) -> u32 {
    let network = addr & netmask(prefix);
    if prefix < 31 && network < 0xffff_ffffu32 { (network + 1) as u32 } else { network }
}

/// The last host address: before the broadcast address, unless the prefix
/// is 31 or 32 bits.
pub open spec fn last_host(addr: u32, prefix: u8) -> u32 {
    let broadcast = addr | hostmask(prefix);
    if prefix < 31 && broadcast > 0 { (broadcast - 1) as u32 } else { broadcast }
}

/// The host addresses of a network, in increasing order.
pub open spec fn hosts_spec(addr: u32, prefix: u8) -> Seq<u32> {
    let first = first_host(addr, prefix);
    let last = last_host(addr, prefix);
    if first <= last {
        Seq::new((last - first + 1) as nat, |i: int| (first + i) as u32)
    } else {
        Seq::empty()
    }
}

/// The host addresses of the network of `addr` with a prefix of `prefix`
/// bits, from `Ipv4Net::hosts`: the addresses from the network address to
/// the broadcast address, both excluded where the prefix is shorter than 31
/// bits. `Ipv4Net::new` refuses a prefix longer than 32 bits, which the
/// precondition rules out.
#[verifier::external_body]
pub(crate) fn network_hosts(addr: u32, prefix: u8) -> (res: Vec<u32>)
    requires
        prefix <= 32,
    ensures
        res@ == hosts_spec(addr, prefix),
{
    match Ipv4Net::new(addr.into(), prefix) {
        Ok(net) => net.hosts().map(u32::from).collect(),
        Err(_) => Vec::new(),
    }
}

/// What an address is probed for.
#[derive(Debug, PartialEq, Eq, Clone, Copy)]
pub enum Probe {
    Xbee,
    Fernbedienung,
}

/// The addresses of the network, each with whether a device found there is
/// in use.
#[derive(Debug)]
pub struct Prober {
    pub addresses: Vec<(u32, bool)>,
}

/// The position of `addr` among the addresses, if any.
pub open spec fn addr_index(addresses: Seq<(u32, bool)>, addr: u32) -> Option<int> {
    if exists|i: int| 0 <= i < addresses.len() && addresses[i].0 == addr {
        Some(choose|i: int| 0 <= i < addresses.len() && addresses[i].0 == addr
            && forall|j: int| 0 <= j < i ==> addresses[j].0 != addr)
    } else {
        None
    }
}

/// The position found for an address holds it, and no earlier one does.
pub proof fn lemma_addr_index(addresses: Seq<(u32, bool)>, addr: u32)
    ensures
        addr_index(addresses, addr) matches Some(i) ==> 0 <= i < addresses.len() && addresses[i].0 == addr
            && forall|j: int| 0 <= j < i ==> addresses[j].0 != addr,
        addr_index(addresses, addr) is None ==> forall|j: int| 0 <= j < addresses.len() ==> addresses[j].0 != addr,
{
    if exists|i: int| 0 <= i < addresses.len() && addresses[i].0 == addr {
        let w = choose|i: int| 0 <= i < addresses.len() && addresses[i].0 == addr;
        lemma_least_addr(addresses, addr, w);
    }
}

/// Where `addr` occurs, there is a first position holding it.
proof fn lemma_least_addr(addresses: Seq<(u32, bool)>, addr: u32, w: int)
    requires
        0 <= w < addresses.len(),
        addresses[w].0 == addr,
    ensures
        exists|i: int| 0 <= i < addresses.len() && addresses[i].0 == addr
            && forall|j: int| 0 <= j < i ==> addresses[j].0 != addr,
    decreases w,
{
    if exists|j: int| 0 <= j < w && addresses[j].0 == addr {
        let j = choose|j: int| 0 <= j < w && addresses[j].0 == addr;
        lemma_least_addr(addresses, addr, j);
    }
}

/// The addresses after marking `addr` as in use or not: its entry changes,
/// or one is added.
pub open spec fn marked(addresses: Seq<(u32, bool)>, addr: u32, in_use: bool) -> Seq<(u32, bool)> {
    match addr_index(addresses, addr) {
        Some(i) => addresses.update(i, (addr, in_use)),
        None => addresses.push((addr, in_use)),
    }
}

impl Prober {
    /// Every host of the network, none in use; each is first probed for an
    /// Xbee.
    pub fn new(network_addr: u32, prefix: u8) -> (res: (Prober, Vec<u32>))
        requires
            prefix <= 32,
        ensures
            res.1@ == hosts_spec(network_addr, prefix),
            res.0.addresses@ == Seq::new(res.1@.len(), |i: int| (res.1@[i], false)),
    {
        let hosts = network_hosts(network_addr, prefix);
        let mut addresses: Vec<(u32, bool)> = Vec::new();
        let mut i: usize = 0;
        while i < hosts.len()
            invariant
                i <= hosts@.len(),
                addresses@ =~= Seq::new(i as nat, |k: int| (hosts@[k], false)),
            decreases hosts.len() - i,
        {
            addresses.push((hosts[i], false));
            i = i + 1;
        }
        (Prober { addresses }, hosts)
    }

    /// The position of `addr`.
    fn find(&self, addr: u32) -> (res: Option<usize>)
        ensures
            match res {
                Some(i) => addr_index(self.addresses@, addr) == Some(i as int),
                None => addr_index(self.addresses@, addr) is None,
            },
    {
        let mut i: usize = 0;
        while i < self.addresses.len()
            invariant
                i <= self.addresses@.len(),
                forall|j: int| 0 <= j < i ==> self.addresses@[j].0 != addr,
            decreases self.addresses.len() - i,
        {
            if self.addresses[i].0 == addr {
                proof {
                    let c = choose|c: int| 0 <= c < self.addresses@.len() && self.addresses@[c].0 == addr
                        && forall|j: int| 0 <= j < c ==> self.addresses@[j].0 != addr;
                    assert(c == i as int);
                }
                return Some(i);
            }
            i = i + 1;
        }
        None
    }

    /// Marks `addr` as in use or not.
    fn mark(&mut self, addr: u32, in_use: bool)
        ensures
            final(self).addresses@ == marked(old(self).addresses@, addr, in_use),
    {
        proof { lemma_addr_index(self.addresses@, addr); }
        match self.find(addr) {
            Some(i) => {
                self.addresses.set(i, (addr, in_use));
            },
            None => {
                self.addresses.push((addr, in_use));
            },
        }
    }

    /// A device gave its address back (its connection ended): where the
    /// address was in use, it is free again and is probed for an Xbee.
    pub fn returned(&mut self, addr: u32) -> (res: Option<Probe>)
        ensures
            match addr_index(old(self).addresses@, addr) {
                Some(i) => if old(self).addresses@[i].1 {
                    res == Some(Probe::Xbee) && final(self).addresses@ == old(self).addresses@.update(i, (addr, false))
                } else {
                    res is None && final(self).addresses == old(self).addresses
                },
                None => res is None && final(self).addresses == old(self).addresses,
            },
    {
        proof { lemma_addr_index(self.addresses@, addr); }
        match self.find(addr) {
            Some(i) => {
                if self.addresses[i].1 {
                    self.addresses.set(i, (addr, false));
                    Some(Probe::Xbee)
                } else {
                    None
                }
            },
            None => None,
        }
    }

    /// A probe ended: a device found is in use; otherwise the address is
    /// probed for the other kind of device.
    pub fn probed(&mut self, addr: u32, probe: Probe, found: bool) -> (res: Option<Probe>)
        ensures
            found ==> res is None && final(self).addresses@ == marked(old(self).addresses@, addr, true),
            !found ==> final(self).addresses == old(self).addresses && res == Some(match probe {
                Probe::Xbee => Probe::Fernbedienung,
                Probe::Fernbedienung => Probe::Xbee,
            }),
    {
        if found {
            self.mark(addr, true);
            None
        } else {
            match probe {
                Probe::Xbee => Some(Probe::Fernbedienung),
                Probe::Fernbedienung => Some(Probe::Xbee),
            }
        }
    }
}

/// Once a device is found at an address, the address is in use, so that
/// it is probed again (for an Xbee) when it is given back.
pub proof fn lemma_found_in_use(addresses: Seq<(u32, bool)>, addr: u32)
    ensures
        addr_index(marked(addresses, addr, true), addr) matches Some(i)
            && marked(addresses, addr, true)[i] == (addr, true),
{
    let m = marked(addresses, addr, true);
    lemma_addr_index(addresses, addr);
    lemma_addr_index(m, addr);
    match addr_index(addresses, addr) {
        Some(i) => {
            assert(m[i].0 == addr);
            assert(forall|j: int| 0 <= j < i ==> m[j] == addresses[j]);
        },
        None => {
            let l = addresses.len() as int;
            assert(m[l].0 == addr);
            assert(forall|j: int| 0 <= j < l ==> m[j] == addresses[j]);
        },
    }
}

/// The kind of robot that a Fernbedienung host is.
#[derive(Debug, PartialEq, Eq, Clone, Copy)]
pub enum HostRole {
    PiPuck,
    Drone,
}

/// The robot that a host's name announces: a Raspberry Pi Zero (or the
/// laboratory's test laptop) is a Pi-Puck, an Up Core is a drone; any other
/// name is not associated.
pub open spec fn host_role_spec(hostname: Seq<char>) -> Option<HostRole> {
    if hostname == "raspberrypi0-wifi"@ || hostname == "ToshibaLaptop"@ {
        Some(HostRole::PiPuck)
    } else if hostname == "up-core"@ {
        Some(HostRole::Drone)
    } else {
        None
    }
}

/// Tells from a host's name which robot it belongs to.
pub fn host_role(hostname: &String) -> (res: Option<HostRole>)
    ensures
        res == host_role_spec(hostname@),
{
    if is_text(hostname, "raspberrypi0-wifi") || is_text(hostname, "ToshibaLaptop") {
        Some(HostRole::PiPuck)
    } else if is_text(hostname, "up-core") {
        Some(HostRole::Drone)
    } else {
        None
    }
}

} // verus!

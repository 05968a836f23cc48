//! Internet addresses, and the networks of this machine.

use vstd::prelude::*;
use vstd::string::StringExecFns;
use crate::number::{decimal, decimal_text};

verus! {

/// An internet address.
#[derive(Clone, Copy, Debug, PartialEq, Eq)]
pub enum IpAddress {
    V4([u8; 4]),
    V6([u16; 8]),
}

/// Whether all but the last of eight segments are zero.
pub open spec fn leading_zeros(s: Seq<u16>) -> bool {
    s[0] == 0 && s[1] == 0 && s[2] == 0 && s[3] == 0 && s[4] == 0 && s[5] == 0 && s[6] == 0
}

impl IpAddress {
    /// Whether this is an address that events can be sent to: neither one of this
    /// machine, nor the unspecified address, nor one for a group of machines.
    pub open spec fn usable(self) -> bool {
        match self {
            IpAddress::V4(o) => {
                let loopback = o@[0] == 127;
                let unspecified = o@[0] == 0 && o@[1] == 0 && o@[2] == 0 && o@[3] == 0;
                let multicast = 224 <= o@[0] <= 239;
                !loopback && !unspecified && !multicast
            },
            IpAddress::V6(s) => {
                let loopback = leading_zeros(s@) && s@[7] == 1;
                let unspecified = leading_zeros(s@) && s@[7] == 0;
                let multicast = s@[0] >= 0xff00;
                !loopback && !unspecified && !multicast
            },
        }
    }

    /// Whether this is an address that events can be sent to.
    pub fn is_usable(&self) -> (r: bool)
        ensures
            r == self.usable(),
    {
        match self {
            IpAddress::V4(o) => {
                let unspecified = o[0] == 0 && o[1] == 0 && o[2] == 0 && o[3] == 0;
                o[0] != 127 && !unspecified && !(224 <= o[0] && o[0] <= 239)
            },
            IpAddress::V6(s) => {
                let leading = s[0] == 0 && s[1] == 0 && s[2] == 0 && s[3] == 0 && s[4] == 0
                    && s[5] == 0 && s[6] == 0;
                !(leading && s[7] == 1) && !(leading && s[7] == 0) && !(s[0] >= 0xff00)
            },
        }
    }
}

/// The first address that events can be sent to.
pub open spec fn first_usable(addresses: Seq<IpAddress>) -> Option<int>
    decreases addresses.len(),
{
    if addresses.len() == 0 {
        None
    } else {
        match first_usable(addresses.drop_last()) {
            Some(i) => Some(i),
            None => if addresses.last().usable() {
                Some(addresses.len() - 1)
            } else {
                None
            },
        }
    }
}

/// The index of the first address that events can be sent to.
pub fn usable_address(addresses: &Vec<IpAddress>) -> (r: Option<usize>)
    ensures
        match r {
            Some(i) => first_usable(addresses@) == Some(i as int) && i < addresses.len(),
            None => first_usable(addresses@) is None,
        },
{
    let mut i: usize = 0;
    let mut found: Option<usize> = None;
    while i < addresses.len()
        invariant
            i <= addresses.len(),
            match found {
                Some(k) => first_usable(addresses@.take(i as int)) == Some(k as int) && k < i,
                None => first_usable(addresses@.take(i as int)) is None,
            },
        decreases addresses.len() - i,
    {
        assert(addresses@.take(i + 1).drop_last() =~= addresses@.take(i as int));
        assert(addresses@.take(i + 1).last() == addresses@[i as int]);
        if found.is_none() && addresses[i].is_usable() {
            found = Some(i);
        }
        i += 1;
    }
    assert(addresses@.take(addresses@.len() as int) =~= addresses@);
    found
}

// ---------------------------------------------------------------------------
// Private networks
// ---------------------------------------------------------------------------

/// An address of version 4, octet by octet.
#[derive(Clone, Copy, Debug, PartialEq, Eq, Structural)]
pub struct Ipv4 {
    pub a: u8,
    pub b: u8,
    pub c: u8,
    pub d: u8,
}

/// The address of this machine to itself.
pub open spec fn localhost() -> Ipv4 {
    Ipv4 { a: 127, b: 0, c: 0, d: 1 }
}

impl Ipv4 {
    pub fn new(a: u8, b: u8, c: u8, d: u8) -> (r: Self)
        ensures
            r == (Ipv4 { a, b, c, d }),
    {
        Ipv4 { a, b, c, d }
    }

    /// Whether this is an address of a private network.
    pub open spec fn private(self) -> bool {
        self.a == 10 || (self.a == 172 && 16 <= self.b <= 31) || (self.a == 192 && self.b == 168)
    }

    /// The address with dots between its octets.
    pub open spec fn dotted(self) -> Seq<char> {
        decimal(self.a as nat) + "."@ + decimal(self.b as nat) + "."@ + decimal(self.c as nat)
            + "."@ + decimal(self.d as nat)
    }

    /// The address with dots between its octets.
    pub fn text(&self) -> (r: String)
        ensures
            r@ == self.dotted(),
    {
        let mut s = decimal_text(self.a as u64);
        s.append(".");
        s.append(&decimal_text(self.b as u64));
        s.append(".");
        s.append(&decimal_text(self.c as u64));
        s.append(".");
        s.append(&decimal_text(self.d as u64));
        s
    }
}

/// Whether this is an address of a private network.
pub fn is_rfc1918(ip: Ipv4) -> (r: bool)
    ensures
        r == ip.private(),
{
    ip.a == 10 || (ip.a == 172 && 16 <= ip.b && ip.b <= 31) || (ip.a == 192 && ip.b == 168)
}

/// Whether `other` lies in the network that `local` is taken to lie in: the first
/// two octets make up the network in the ranges 10 and 172.16 to 172.31, and the
/// first three octets anywhere else.
pub open spec fn same_network(local: Ipv4, other: Ipv4) -> bool {
    if local.a == 10 || (local.a == 172 && 16 <= local.b <= 31) {
        local.a == other.a && local.b == other.b
    } else {
        local.a == other.a && local.b == other.b && local.c == other.c
    }
}

/// Whether `other` lies in the network that `local` is taken to lie in.
pub fn is_same_subnet(local: Ipv4, other: Ipv4) -> (r: bool)
    ensures
        r == same_network(local, other),
{
    if local.a == 10 || (local.a == 172 && 16 <= local.b && local.b <= 31) {
        local.a == other.a && local.b == other.b
    } else {
        local.a == other.a && local.b == other.b && local.c == other.c
    }
}

/// The first address of a private network.
pub open spec fn first_private(ips: Seq<Ipv4>) -> Option<Ipv4>
    decreases ips.len(),
{
    if ips.len() == 0 {
        None
    } else if ips[0].private() {
        Some(ips[0])
    } else {
        first_private(ips.skip(1))
    }
}

/// The address under which this machine is best reached: the first one of a private
/// network, or else the first of all, or else the one to itself.
pub open spec fn best_address(ips: Seq<Ipv4>) -> Ipv4 {
    match first_private(ips) {
        Some(ip) => ip,
        None => if ips.len() > 0 {
            ips[0]
        } else {
            localhost()
        },
    }
}

/// The address under which this machine is best reached.
pub fn find_best_local_ip(ips: &Vec<Ipv4>) -> (r: Ipv4)
    ensures
        r == best_address(ips@),
{
    let mut i: usize = 0;
    assert(ips@.skip(0) =~= ips@);
    while i < ips.len()
        invariant
            i <= ips.len(),
            first_private(ips@) == first_private(ips@.skip(i as int)),
        decreases ips.len() - i,
    {
        assert(ips@.skip(i as int).skip(1) =~= ips@.skip(i + 1));
        if is_rfc1918(ips[i]) {
            return ips[i];
        }
        i += 1;
    }
    if ips.len() > 0 {
        ips[0]
    } else {
        Ipv4::new(127, 0, 0, 1)
    }
}

/// Where this machine has an address of a private network, its best address is
/// one.
pub proof fn law_private_addresses_are_preferred(ips: Seq<Ipv4>)
    ensures
        (exists|i: int| 0 <= i < ips.len() && (#[trigger] ips[i]).private()) ==> best_address(
            ips,
        ).private() && ips.contains(best_address(ips)),
    decreases ips.len(),
{
    if ips.len() > 0 && !ips[0].private() {
        let rest = ips.skip(1);
        law_private_addresses_are_preferred(rest);
        if exists|i: int| 0 <= i < ips.len() && (#[trigger] ips[i]).private() {
            let i = choose|i: int| 0 <= i < ips.len() && (#[trigger] ips[i]).private();
            assert(rest[i - 1] == ips[i]);
            lemma_first_private_found(rest, i - 1);
            let k = choose|k: int| 0 <= k < rest.len() && rest[k] == best_address(rest);
            assert(ips[k + 1] == rest[k]);
        }
    } else if ips.len() > 0 {
        assert(ips[0] == best_address(ips));
    }
}

proof fn lemma_first_private_found(ips: Seq<Ipv4>, i: int)
    requires
        0 <= i < ips.len(),
        ips[i].private(),
    ensures
        first_private(ips) is Some,
    decreases i,
{
    if !ips[0].private() {
        lemma_first_private_found(ips.skip(1), i - 1);
    }
}

/// The first address of this machine in the network of `peer`.
pub open spec fn first_in_network(ips: Seq<Ipv4>, peer: Ipv4) -> Option<Ipv4>
    decreases ips.len(),
{
    if ips.len() == 0 {
        None
    } else if same_network(ips[0], peer) {
        Some(ips[0])
    } else {
        first_in_network(ips.skip(1), peer)
    }
}

/// The address under which `peer` reaches this machine: the first in its network,
/// or else the first of all; none for a peer without an address of version 4.
pub open spec fn matching_address(ips: Seq<Ipv4>, peer: Option<Ipv4>) -> Option<Ipv4> {
    match peer {
        None => None,
        Some(peer) => match first_in_network(ips, peer) {
            Some(ip) => Some(ip),
            None => if ips.len() > 0 {
                Some(ips[0])
            } else {
                None
            },
        },
    }
}

/// The address under which `peer` reaches this machine.
pub fn find_matching_interface(ips: &Vec<Ipv4>, peer: Option<Ipv4>) -> (r: Option<Ipv4>)
    ensures
        r == matching_address(ips@, peer),
{
    let there = match peer {
        Some(peer) => peer,
        None => {
            return None;
        },
    };
    let mut i: usize = 0;
    assert(ips@.skip(0) =~= ips@);
    while i < ips.len()
        invariant
            i <= ips.len(),
            peer == Some(there),
            first_in_network(ips@, there) == first_in_network(ips@.skip(i as int), there),
        decreases ips.len() - i,
    {
        assert(ips@.skip(i as int).skip(1) =~= ips@.skip(i + 1));
        if is_same_subnet(ips[i], there) {
            return Some(ips[i]);
        }
        i += 1;
    }
    if ips.len() > 0 {
        Some(ips[0])
    } else {
        None
    }
}

/// The addresses of version 4 that others may know: all but those of this machine
/// to itself.
pub open spec fn outward(addresses: Seq<IpAddress>) -> Seq<Ipv4>
    decreases addresses.len(),
{
    if addresses.len() == 0 {
        seq![]
    } else {
        let rest = outward(addresses.drop_last());
        match addresses.last() {
            IpAddress::V4(o) => if o@[0] != 127 {
                rest.push(Ipv4 { a: o@[0], b: o@[1], c: o@[2], d: o@[3] })
            } else {
                rest
            },
            IpAddress::V6(_) => rest,
        }
    }
}

/// The addresses of version 4 that others may know.
pub fn list_local_ipv4(addresses: &Vec<IpAddress>) -> (r: Vec<Ipv4>)
    ensures
        r@ == outward(addresses@),
{
    let mut out: Vec<Ipv4> = Vec::new();
    let mut i: usize = 0;
    assert(out@ =~= outward(addresses@.take(0)));
    while i < addresses.len()
        invariant
            i <= addresses.len(),
            out@ == outward(addresses@.take(i as int)),
        decreases addresses.len() - i,
    {
        assert(addresses@.take(i + 1).drop_last() =~= addresses@.take(i as int));
        match addresses[i] {
            IpAddress::V4(o) => {
                if o[0] != 127 {
                    out.push(Ipv4 { a: o[0], b: o[1], c: o[2], d: o[3] });
                }
            },
            IpAddress::V6(_) => {},
        }
        i += 1;
    }
    assert(addresses@.take(addresses@.len() as int) =~= addresses@);
    out
}

} // verus!

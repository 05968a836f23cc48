//! Which addresses this machine is reached at, and which events are sent to.

use vstd::prelude::*;
use crate::app::service_address;
use crate::net::{
    best_address, first_in_network, first_private, matching_address, outward, same_network,
    IpAddress, Ipv4,
};
use crate::number::{decimal, uint_value};
use crate::reading::{lacks, lemma_number_is_read};
use crate::ssdp::{find_sender, sender_for};
use crate::text::{lemma_find_char, lemma_find_char_unique, split_spec};
use crate::upnp::gena::target_of;
use crate::upnp::gena_laws::law_address_leads_to_its_host;

verus! {

/// A text with one separator more in front of the rest has one piece more.
pub proof fn lemma_split_first(a: Seq<char>, c: char, rest: Seq<char>)
    requires
        lacks(a, c),
    ensures
        split_spec(a + seq![c] + rest, c) == seq![a] + split_spec(rest, c),
        split_spec(a, c) == seq![a],
{
    let s = a + seq![c] + rest;
    let n = a.len() as int;
    assert forall|j: int| 0 <= j < n implies s[j] != c by {
        assert(s[j] == a[j]);
    }
    lemma_find_char_unique(s, c, 0, n);
    assert(s.take(n) =~= a);
    assert(s.skip(n + 1) =~= rest);
    lemma_find_char(a, c, 0);
}

/// The four numbers of an address are read back from its text.
pub proof fn law_address_is_read(ip: Ipv4)
    ensures
        ({
            let parts = split_spec(ip.dotted(), '.');
            &&& parts.len() == 4
            &&& uint_value(parts[0], 10, u8::MAX as int) == Some(ip.a as nat)
            &&& uint_value(parts[1], 10, u8::MAX as int) == Some(ip.b as nat)
            &&& uint_value(parts[2], 10, u8::MAX as int) == Some(ip.c as nat)
            &&& uint_value(parts[3], 10, u8::MAX as int) == Some(ip.d as nat)
        }),
{
    let a = decimal(ip.a as nat);
    let b = decimal(ip.b as nat);
    let c = decimal(ip.c as nat);
    let d = decimal(ip.d as nat);
    lemma_number_is_read(ip.a as nat, u8::MAX as int);
    lemma_number_is_read(ip.b as nat, u8::MAX as int);
    lemma_number_is_read(ip.c as nat, u8::MAX as int);
    lemma_number_is_read(ip.d as nat, u8::MAX as int);
    assert(lacks(a, '.') && lacks(b, '.') && lacks(c, '.') && lacks(d, '.'));
    let dot = seq!['.'];
    assert("."@ == dot) by {
        reveal_strlit(".");
        assert("."@ =~= dot);
    }
    assert(ip.dotted() =~= a + dot + (b + dot + (c + dot + d)));
    lemma_split_first(a, '.', b + dot + (c + dot + d));
    lemma_split_first(b, '.', c + dot + d);
    lemma_split_first(c, '.', d);
    lemma_split_first(d, '.', d);
}

/// Events are sent neither to this machine itself, nor to nowhere, nor to a group: an address
/// of version 4 is usable exactly where it begins neither with 127 nor with 224 to 239, and is
/// not all zeros. One of version 6 is usable exactly where it is not one of its two first, and
/// does not begin with 255.
pub proof fn law_usable_addresses(octets: [u8; 4], segments: [u16; 8])
    ensures
        IpAddress::V4(octets).usable() <==> octets@[0] != 127 && !(224 <= octets@[0] <= 239) && (
        octets@[0] != 0 || octets@[1] != 0 || octets@[2] != 0 || octets@[3] != 0),
        IpAddress::V6(segments).usable() <==> segments@[0] < 0xff00 && (segments@[0] != 0
            || segments@[1] != 0 || segments@[2] != 0 || segments@[3] != 0 || segments@[4] != 0
            || segments@[5] != 0 || segments@[6] != 0 || segments@[7] > 1),
{
}

/// An address is one of a private network exactly where it begins with 10, with 172.16 to
/// 172.31, or with 192.168.
pub proof fn law_private_addresses(ip: Ipv4)
    ensures
        ip.a == 10 ==> ip.private(),
        ip.a == 172 ==> (ip.private() <==> 16 <= ip.b <= 31),
        ip.a == 192 ==> (ip.private() <==> ip.b == 168),
        ip.a != 10 && ip.a != 172 && ip.a != 192 ==> !ip.private(),
{
}

/// A machine lies in its own network, and addresses in one network agree in their first two
/// numbers, and in the third one too unless they are in the large private networks.
pub proof fn law_networks(local: Ipv4, other: Ipv4)
    ensures
        same_network(local, local),
        same_network(local, other) ==> same_network(other, local),
        same_network(local, other) ==> local.a == other.a && local.b == other.b,
        local.a == 10 || local.a == 172 && 16 <= local.b <= 31 ==> (same_network(local, other)
            <==> local.a == other.a && local.b == other.b),
        local.a != 10 && !(local.a == 172 && 16 <= local.b <= 31) ==> (same_network(local, other)
            <==> local.a == other.a && local.b == other.b && local.c == other.c),
{
}

/// This machine is best reached at its first address of a private network, or at its first
/// address where none is private, or else at that to itself.
pub proof fn law_best_address(ips: Seq<Ipv4>, i: int)
    ensures
        ips.len() == 0 ==> best_address(ips) == (Ipv4 { a: 127, b: 0, c: 0, d: 1 }),
        0 <= i < ips.len() && ips[i].private() && (forall|j: int|
            0 <= j < i ==> !(#[trigger] ips[j]).private()) ==> best_address(ips) == ips[i],
        ips.len() > 0 && (forall|j: int| 0 <= j < ips.len() ==> !(#[trigger] ips[j]).private())
            ==> best_address(ips) == ips[0],
{
    lemma_first_private(ips);
}

/// The index of the first address of a private network.
spec fn first_private_index(ips: Seq<Ipv4>) -> Option<int>
    decreases ips.len(),
{
    if ips.len() == 0 {
        None
    } else if ips[0].private() {
        Some(0)
    } else {
        match first_private_index(ips.skip(1)) {
            Some(i) => Some(i + 1),
            None => None,
        }
    }
}

proof fn lemma_first_private(ips: Seq<Ipv4>)
    ensures
        match first_private_index(ips) {
            Some(i) => 0 <= i < ips.len() && ips[i].private() && first_private(ips) == Some(ips[i])
                && forall|j: int| 0 <= j < i ==> !(#[trigger] ips[j]).private(),
            None => first_private(ips) is None && forall|j: int|
                0 <= j < ips.len() ==> !(#[trigger] ips[j]).private(),
        },
    decreases ips.len(),
{
    if ips.len() > 0 && !ips[0].private() {
        let rest = ips.skip(1);
        lemma_first_private(rest);
        assert forall|j: int| 1 <= j < ips.len() implies #[trigger] ips[j] == rest[j - 1] by {}
    }
}

/// A peer reaches this machine at its first address in the network of the peer, or at its first
/// address where none is.
pub proof fn law_matching_address(ips: Seq<Ipv4>, peer: Ipv4, i: int)
    ensures
        matching_address(ips, None) is None,
        ips.len() == 0 ==> matching_address(ips, Some(peer)) is None,
        0 <= i < ips.len() && same_network(ips[i], peer) && (forall|j: int|
            0 <= j < i ==> !same_network(#[trigger] ips[j], peer)) ==> matching_address(
            ips,
            Some(peer),
        ) == Some(ips[i]),
        ips.len() > 0 && (forall|j: int|
            0 <= j < ips.len() ==> !same_network(#[trigger] ips[j], peer)) ==> matching_address(
            ips,
            Some(peer),
        ) == Some(ips[0]),
{
    lemma_first_in_network(ips, peer, i);
}

proof fn lemma_first_in_network(ips: Seq<Ipv4>, peer: Ipv4, i: int)
    ensures
        0 <= i < ips.len() && same_network(ips[i], peer) && (forall|j: int|
            0 <= j < i ==> !same_network(#[trigger] ips[j], peer)) ==> first_in_network(ips, peer)
            == Some(ips[i]),
        (forall|j: int| 0 <= j < ips.len() ==> !same_network(#[trigger] ips[j], peer))
            ==> first_in_network(ips, peer) is None,
    decreases ips.len(),
{
    if ips.len() > 0 && !same_network(ips[0], peer) {
        let rest = ips.skip(1);
        assert forall|j: int| 0 <= j < rest.len() implies #[trigger] rest[j] == ips[j + 1] by {}
        lemma_first_in_network(rest, peer, i - 1);
    }
}

/// The addresses that others may know are those of version 4 that are not this machine to
/// itself, each of them, and no others.
pub proof fn law_outward_addresses(addresses: Seq<IpAddress>, ip: Ipv4)
    ensures
        outward(addresses).contains(ip) <==> ip.a != 127 && exists|i: int|
            0 <= i < addresses.len() && is_v4(#[trigger] addresses[i], ip),
    decreases addresses.len(),
{
    let all = outward(addresses);
    if addresses.len() > 0 {
        let front = addresses.drop_last();
        let last = addresses[addresses.len() - 1];
        let rest = outward(front);
        law_outward_addresses(front, ip);
        if rest.contains(ip) {
            let k = choose|k: int| 0 <= k < rest.len() && rest[k] == ip;
            assert(all[k] == ip);
            let i = choose|i: int| 0 <= i < front.len() && is_v4(#[trigger] front[i], ip);
            assert(addresses[i] == front[i]);
        }
        if ip.a != 127 && exists|i: int|
            0 <= i < addresses.len() && is_v4(#[trigger] addresses[i], ip) {
            let i = choose|i: int| 0 <= i < addresses.len() && is_v4(#[trigger] addresses[i], ip);
            if i < front.len() {
                assert(front[i] == addresses[i]);
            } else {
                assert(all[all.len() - 1] == ip);
            }
        }
        if all.contains(ip) && !rest.contains(ip) {
            let k = choose|k: int| 0 <= k < all.len() && all[k] == ip;
            if k < rest.len() {
                assert(rest[k] == ip);
            }
            assert(is_v4(last, ip));
        }
    }
}

/// Whether an address is this one of version 4.
pub open spec fn is_v4(address: IpAddress, ip: Ipv4) -> bool {
    match address {
        IpAddress::V4(o) => o@[0] == ip.a && o@[1] == ip.b && o@[2] == ip.c && o@[3] == ip.d,
        IpAddress::V6(_) => false,
    }
}

/// A peer is answered by a sender at the address that it reaches this machine at, where there
/// is one.
pub proof fn law_sender_is_the_one_that_is_reached(
    senders: Seq<Ipv4>,
    ips: Seq<Ipv4>,
    peer: Option<Ipv4>,
)
    ensures
        match sender_for(senders, ips, peer) {
            Some(i) => 0 <= i < senders.len() && matching_address(ips, peer) == Some(senders[i]),
            None => matching_address(ips, peer) is None || !senders.contains(
                matching_address(ips, peer)->0,
            ),
        },
{
    if let Some(ip) = matching_address(ips, peer) {
        lemma_find_sender(senders, ip, 0);
    }
}

proof fn lemma_find_sender(senders: Seq<Ipv4>, ip: Ipv4, from: int)
    requires
        0 <= from,
    ensures
        match find_sender(senders, ip, from) {
            Some(i) => from <= i < senders.len() && senders[i] == ip,
            None => forall|j: int| from <= j < senders.len() ==> #[trigger] senders[j] != ip,
        },
    decreases senders.len() - from,
{
    if from < senders.len() && senders[from] != ip {
        lemma_find_sender(senders, ip, from + 1);
    }
}

/// The address of the services leads to this host and port.
pub proof fn law_services_are_reached(host: Seq<char>, port: u16)
    requires
        host.len() > 0,
        lacks(host, '/'),
    ensures
        target_of(service_address(host, port)) matches Some(target) && target.host == host + seq![
            ':',
        ] + decimal(port as nat) && target.socket == target.host && target.path == "/"@,
{
    let named = host + seq![':'] + decimal(port as nat);
    let none = Seq::<char>::empty();
    law_address_leads_to_its_host(host, none, port);
    lemma_number_is_read(port as nat, u16::MAX as int);
    assert(lacks(decimal(port as nat), '/'));
    assert(lacks(named, '/')) by {
        assert forall|i: int| 0 <= i < named.len() implies #[trigger] named[i] != '/' by {
            if i < host.len() {
                assert(named[i] == host[i]);
            } else if i > host.len() {
                assert(named[i] == decimal(port as nat)[i - host.len() - 1]);
            }
        }
    }
    law_address_leads_to_its_host(named, none, port);
    assert(":"@ == seq![':']) by {
        reveal_strlit(":");
        assert(":"@ =~= seq![':']);
    }
    assert(service_address(host, port) =~= "http://"@ + named + none);
}

} // verus!

//! The relay addresses the node keeps: which announced addresses go into its relays
//! file, which lines leave it when a peer disconnects, and its own IP.
use vstd::prelude::*;

use crate::node::{texts, contains_id};
use crate::text::{contains_text, has_substring, ip_of, ip_of_address};

verus! {

/// Announced `addresses`, filed in order: an address goes to the relays file when it is
/// not this node's (it does not name `local_peer_id`) and the file did not hold it; it
/// joins this node's addresses when they do not hold it yet. Gives the lines to append.
pub fn get_addresses(addresses: Vec<String>, local_peer_id: &String, old_addresses: &Vec<String>, my_addresses: &mut Vec<String>) -> (lines: Vec<String>)
    ensures
        texts(lines@) == filed(texts(addresses@), local_peer_id@, texts(old_addresses@)),
        texts(final(my_addresses)@) == merged(texts(old(my_addresses)@), texts(addresses@)),
{
    let mut lines: Vec<String> = Vec::new();
    let mut i: usize = 0;
    while i < addresses.len()
        invariant
            i <= addresses@.len(),
            texts(lines@) == filed(texts(addresses@).take(i as int), local_peer_id@, texts(old_addresses@)),
            texts(my_addresses@) == merged(texts(old(my_addresses)@), texts(addresses@).take(i as int)),
        decreases addresses.len() - i,
    {
        let a = &addresses[i];
        assert(texts(addresses@).take(i + 1).drop_last() =~= texts(addresses@).take(i as int));
        assert(texts(addresses@).take(i + 1).last() == a@);
        if !contains_text(a, local_peer_id) && !contains_id(old_addresses, a) {
            lines.push(a.clone());
            assert(texts(lines@) =~= filed(texts(addresses@).take(i as int), local_peer_id@, texts(old_addresses@)).push(a@));
        }
        if !contains_id(my_addresses, a) {
            let ghost before = texts(my_addresses@);
            my_addresses.push(a.clone());
            assert(texts(my_addresses@) =~= before.push(a@));
        }
        i = i + 1;
    }
    assert(texts(addresses@).take(addresses@.len() as int) =~= texts(addresses@));
    lines
}

/// The announced addresses that go to the relays file (see `get_addresses`).
pub open spec fn filed(addresses: Seq<Seq<char>>, local: Seq<char>, old_lines: Seq<Seq<char>>) -> Seq<Seq<char>>
    decreases addresses.len(),
{
    if addresses.len() == 0 {
        Seq::empty()
    } else {
        let rest = filed(addresses.drop_last(), local, old_lines);
        let a = addresses.last();
        if !has_substring(a, local) && !old_lines.contains(a) {
            rest.push(a)
        } else {
            rest
        }
    }
}

/// `known` with the texts of `incoming` it does not hold yet added, in order.
pub open spec fn merged(known: Seq<Seq<char>>, incoming: Seq<Seq<char>>) -> Seq<Seq<char>>
    decreases incoming.len(),
{
    if incoming.len() == 0 {
        known
    } else {
        let before = merged(known, incoming.drop_last());
        if before.contains(incoming.last()) {
            before
        } else {
            before.push(incoming.last())
        }
    }
}

/// The addresses a server listing adds to the relays file holding `existing`: each one
/// that neither the file nor an earlier addition holds.
pub fn new_relay_lines(existing: &Vec<String>, incoming: &Vec<String>) -> (added: Vec<String>)
    ensures
        texts(existing@) + texts(added@) == merged(texts(existing@), texts(incoming@)),
{
    let mut all: Vec<String> = Vec::new();
    let mut i: usize = 0;
    while i < existing.len()
        invariant
            i <= existing@.len(),
            texts(all@) == texts(existing@).take(i as int),
        decreases existing.len() - i,
    {
        let ghost before = all@;
        all.push(existing[i].clone());
        assert(texts(all@) =~= texts(before).push(existing@[i as int]@));
        assert(texts(existing@).take(i + 1) =~= texts(existing@).take(i as int).push(existing@[i as int]@));
        i = i + 1;
    }
    assert(texts(existing@).take(existing@.len() as int) =~= texts(existing@));
    let mut added: Vec<String> = Vec::new();
    let mut j: usize = 0;
    while j < incoming.len()
        invariant
            j <= incoming@.len(),
            texts(all@) == texts(existing@) + texts(added@),
            texts(all@) == merged(texts(existing@), texts(incoming@).take(j as int)),
        decreases incoming.len() - j,
    {
        assert(texts(incoming@).take(j + 1).drop_last() =~= texts(incoming@).take(j as int));
        assert(texts(incoming@).take(j + 1).last() == incoming@[j as int]@);
        if !contains_id(&all, &incoming[j]) {
            let ghost before_all = all@;
            let ghost before_added = added@;
            all.push(incoming[j].clone());
            added.push(incoming[j].clone());
            assert(texts(all@) =~= texts(before_all).push(incoming@[j as int]@));
            assert(texts(added@) =~= texts(before_added).push(incoming@[j as int]@));
            assert(texts(all@) =~= texts(existing@) + texts(added@));
        }
        j = j + 1;
    }
    assert(texts(incoming@).take(incoming@.len() as int) =~= texts(incoming@));
    added
}

/// The lines of the relays file that stay when `peerid` disconnects (those that do not
/// name it) and those that go (those that do), each in file order.
pub fn partition_relay_lines(lines: &Vec<String>, peerid: &String) -> (r: (Vec<String>, Vec<String>))
    ensures
        texts(r.0@) == texts(lines@).filter(|l: Seq<char>| !has_substring(l, peerid@)),
        texts(r.1@) == texts(lines@).filter(|l: Seq<char>| has_substring(l, peerid@)),
{
    let ghost keep = |l: Seq<char>| !has_substring(l, peerid@);
    let ghost drop = |l: Seq<char>| has_substring(l, peerid@);
    let mut kept: Vec<String> = Vec::new();
    let mut removed: Vec<String> = Vec::new();
    let mut i: usize = 0;
    while i < lines.len()
        invariant
            i <= lines@.len(),
            texts(kept@) == texts(lines@).take(i as int).filter(keep),
            texts(removed@) == texts(lines@).take(i as int).filter(drop),
            keep == (|l: Seq<char>| !has_substring(l, peerid@)),
            drop == (|l: Seq<char>| has_substring(l, peerid@)),
        decreases lines.len() - i,
    {
        reveal_with_fuel(Seq::<_>::filter, 1);
        assert(texts(lines@).take(i + 1).drop_last() =~= texts(lines@).take(i as int));
        assert(texts(lines@).take(i + 1).last() == lines@[i as int]@);
        if contains_text(&lines[i], peerid) {
            removed.push(lines[i].clone());
            assert(texts(removed@) =~= texts(lines@).take(i as int).filter(drop).push(lines@[i as int]@));
        } else {
            kept.push(lines[i].clone());
            assert(texts(kept@) =~= texts(lines@).take(i as int).filter(keep).push(lines@[i as int]@));
        }
        i = i + 1;
    }
    assert(texts(lines@).take(lines@.len() as int) =~= texts(lines@));
    (kept, removed)
}

/// This node's IP as read from its address file: the IPs of its lines, one after another.
pub open spec fn my_ip_of(lines: Seq<Seq<char>>) -> Seq<char>
    decreases lines.len(),
{
    if lines.len() == 0 {
        Seq::empty()
    } else {
        my_ip_of(lines.drop_last()) + ip_of(lines.last())
    }
}

/// This node's IP from its address file (see `my_ip_of`).
pub fn my_ip(lines: &Vec<String>) -> (ip: String)
    ensures
        ip@ == my_ip_of(texts(lines@)),
{
    let mut acc: Vec<char> = Vec::new();
    let mut i: usize = 0;
    while i < lines.len()
        invariant
            i <= lines@.len(),
            acc@ == my_ip_of(texts(lines@).take(i as int)),
        decreases lines.len() - i,
    {
        assert(texts(lines@).take(i + 1).drop_last() =~= texts(lines@).take(i as int));
        let ip = ip_of_address(&lines[i]);
        let c = crate::text::chars_of(ip.as_str());
        let ghost before = acc@;
        let mut k: usize = 0;
        while k < c.len()
            invariant
                k <= c@.len(),
                acc@ == before + c@.take(k as int),
            decreases c.len() - k,
        {
            acc.push(c[k]);
            k = k + 1;
            assert(acc@ =~= before + c@.take(k as int));
        }
        assert(c@.take(c@.len() as int) =~= c@);
        i = i + 1;
    }
    assert(texts(lines@).take(lines@.len() as int) =~= texts(lines@));
    crate::text::string_from_chars(&acc)
}

/// An address in the private IPv4 ranges of `Ipv4Addr::is_private`, by its first two
/// octets: 10.0.0.0/8, 172.16.0.0/12 and 192.168.0.0/16.
pub open spec fn is_private_v4(a: u8, b: u8) -> bool {
    a == 10 || (a == 172 && 16 <= b <= 31) || (a == 192 && b == 168)
}

/// Whether a new listener's IP is announced: `ip_text` (the third `/`-separated item of
/// the listen address) with the octets it reads as, neither private nor `127.0.0.1`.
pub fn is_public_listen_ip(ip_text: &String, octets: [u8; 4]) -> (r: bool)
    ensures
        r == (!is_private_v4(octets@[0], octets@[1]) && ip_text@ != "127.0.0.1"@),
{
    let a = octets[0];
    let b = octets[1];
    let private = a == 10 || (a == 172 && 16 <= b && b <= 31) || (a == 192 && b == 168);
    let loopback = String::from_str("127.0.0.1");
    !private && *ip_text != loopback
}

/// Whether the RPC entry of a removed relay line goes too: unless the line holds this
/// node's own IP.
pub fn should_remove_rpc(line: &String, my_ip: &String) -> (r: bool)
    ensures
        r == !has_substring(line@, my_ip@),
{
    !contains_text(line, my_ip)
}

} // verus!

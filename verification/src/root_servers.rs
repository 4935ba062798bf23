//! The fixed table of well-known root servers that every resolution starts
//! from, and the seeded-or-random pick of one of them.

use crate::rng::{random_index, seeded_index, seeded_index_of};
use vstd::prelude::*;
use vstd::string::StringExecFns;

verus! {

/// The hostname of a root server.
pub struct RootServerName(pub String);

/// The root-server table and the pick of a starting authority.
pub struct RootServer {}

/// How many entries the root-server table holds. The table below lists
/// twelve of the thirteen well-known root servers (the `b` entry is absent);
/// both the entries and their order are fixed, because a seeded pick must
/// keep naming the same entry run after run, and reproducible transcripts
/// depend on that mapping exactly as it is.
pub const ROOT_SERVER_COUNT: usize = 12;

/// The IP-address text of the table entry at `i`. The entries are the
/// authoritative name servers declared by IANA.
pub open spec fn spec_root_ip(i: int) -> Seq<char> {
    if i == 0 {
        "198.41.0.4"@
    } else if i == 1 {
        "192.33.4.12"@
    } else if i == 2 {
        "199.7.91.13"@
    } else if i == 3 {
        "192.203.230.10"@
    } else if i == 4 {
        "192.5.5.241"@
    } else if i == 5 {
        "192.112.36.4"@
    } else if i == 6 {
        "198.97.190.53"@
    } else if i == 7 {
        "192.36.148.17"@
    } else if i == 8 {
        "192.58.128.30"@
    } else if i == 9 {
        "193.0.14.129"@
    } else if i == 10 {
        "199.7.83.42"@
    } else {
        "202.12.27.33"@
    }
}

/// The hostname text of the table entry at `i`.
pub open spec fn spec_root_host(i: int) -> Seq<char> {
    if i == 0 {
        "a.root-servers.net"@
    } else if i == 1 {
        "c.root-servers.net"@
    } else if i == 2 {
        "d.root-servers.net"@
    } else if i == 3 {
        "e.root-servers.net"@
    } else if i == 4 {
        "f.root-servers.net"@
    } else if i == 5 {
        "g.root-servers.net"@
    } else if i == 6 {
        "h.root-servers.net"@
    } else if i == 7 {
        "i.root-servers.net"@
    } else if i == 8 {
        "j.root-servers.net"@
    } else if i == 9 {
        "k.root-servers.net"@
    } else if i == 10 {
        "l.root-servers.net"@
    } else {
        "m.root-servers.net"@
    }
}

/// The table entry at `i`: its IP-address text and its hostname.
fn root_entry(i: usize) -> (r: (String, RootServerName))
    requires
        i < ROOT_SERVER_COUNT,
    ensures
        r.0@ == spec_root_ip(i as int),
        r.1.0@ == spec_root_host(i as int),
{
    if i == 0 {
        (String::from_str("198.41.0.4"), RootServerName(String::from_str("a.root-servers.net")))
    } else if i == 1 {
        (String::from_str("192.33.4.12"), RootServerName(String::from_str("c.root-servers.net")))
    } else if i == 2 {
        (String::from_str("199.7.91.13"), RootServerName(String::from_str("d.root-servers.net")))
    } else if i == 3 {
        (
            String::from_str("192.203.230.10"),
            RootServerName(String::from_str("e.root-servers.net")),
        )
    } else if i == 4 {
        (String::from_str("192.5.5.241"), RootServerName(String::from_str("f.root-servers.net")))
    } else if i == 5 {
        (String::from_str("192.112.36.4"), RootServerName(String::from_str("g.root-servers.net")))
    } else if i == 6 {
        (String::from_str("198.97.190.53"), RootServerName(String::from_str("h.root-servers.net")))
    } else if i == 7 {
        (String::from_str("192.36.148.17"), RootServerName(String::from_str("i.root-servers.net")))
    } else if i == 8 {
        (String::from_str("192.58.128.30"), RootServerName(String::from_str("j.root-servers.net")))
    } else if i == 9 {
        (String::from_str("193.0.14.129"), RootServerName(String::from_str("k.root-servers.net")))
    } else if i == 10 {
        (String::from_str("199.7.83.42"), RootServerName(String::from_str("l.root-servers.net")))
    } else {
        (String::from_str("202.12.27.33"), RootServerName(String::from_str("m.root-servers.net")))
    }
}

impl RootServer {
    /// Pick a root server to start a resolution from: a table entry at a
    /// uniformly random index without a seed, and at an index that is a pure
    /// function of the seed with one — the same seed always picks the same
    /// entry.
    pub fn random(random_seed: Option<usize>) -> (r: (String, RootServerName))
        ensures
            exists|i: int|
                0 <= i < ROOT_SERVER_COUNT && r.0@ == spec_root_ip(i) && r.1.0@ == spec_root_host(
                    i,
                ),
            random_seed matches Some(seed) ==> {
                let i = seeded_index_of(seed as u64, ROOT_SERVER_COUNT) as int;
                r.0@ == spec_root_ip(i) && r.1.0@ == spec_root_host(i)
            },
    {
        let index = match random_seed {
            None => random_index(ROOT_SERVER_COUNT),
            Some(value) => seeded_index(value as u64, ROOT_SERVER_COUNT),
        };
        let r = root_entry(index);
        proof {
            assert(r.0@ == spec_root_ip(index as int) && r.1.0@ == spec_root_host(index as int));
        }
        r
    }
}

/// Root-server selection with a seed is a function of the seed alone: any
/// two picks made with the same seed name the same table entry.
pub proof fn lemma_seeded_pick_deterministic(
    seed: usize,
    ip1: Seq<char>,
    host1: Seq<char>,
    ip2: Seq<char>,
    host2: Seq<char>,
)
    requires
        ip1 == spec_root_ip(seeded_index_of(seed as u64, ROOT_SERVER_COUNT) as int),
        host1 == spec_root_host(seeded_index_of(seed as u64, ROOT_SERVER_COUNT) as int),
        ip2 == spec_root_ip(seeded_index_of(seed as u64, ROOT_SERVER_COUNT) as int),
        host2 == spec_root_host(seeded_index_of(seed as u64, ROOT_SERVER_COUNT) as int),
    ensures
        ip1 == ip2,
        host1 == host2,
{
}

} // verus!

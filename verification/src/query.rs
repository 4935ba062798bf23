//! The resolver: build a query for one (domain name, record type) pair, walk
//! the name-server hierarchy from a root server, and follow glue records and
//! NS delegations until an answer arrives — or fail closed once a delegation
//! chain grows suspiciously long.

use crate::cursor::Cursor;
use crate::errors::{is_decode_error, DnsError};
use crate::packet::{parse_full, spec_parse, spec_parse_full, Packet, PacketV};
use crate::record::{first_of_type, spec_first_of_type, spec_record_type_value, RecordType};
use crate::record_name::{spec_encode_name, RecordName};
use crate::rng::{random_id, seeded_id, seeded_id_of};
use crate::root_servers::RootServer;
use crate::socket::Socket;
use crate::text::string_from_utf8;
use vstd::prelude::*;
use vstd::string::StringExecFns;

verus! {

/// The class value for the Internet, the only class this resolver queries.
pub const CLASS_IN: u16 = 1;

/// How deep the resolver recurses into resolving delegated name servers
/// before it fails closed; guards against delegation cycles.
pub const MAX_RECURSION_DEPTH: u16 = 8;

/// How many delegation steps one resolution level follows before it fails
/// closed; guards against an authority that keeps handing out glue.
pub const MAX_DELEGATION_STEPS: u32 = 32;

/// How many bytes of a reply the resolver accepts: a practical ceiling for a
/// DNS answer over UDP.
pub const RESPONSE_BUFFER_LEN: usize = 1024;

/// A DNS query: one domain name and one record type.
pub struct Query {
    /// Domain name for the query.
    pub domain_name: String,
    /// Record type for the query.
    pub record_type: RecordType,
}

/// A 16-bit value as two big-endian bytes.
pub open spec fn be16_seq(v: u16) -> Seq<u8> {
    seq![(v / 0x100) as u8, (v % 0x100) as u8]
}

/// The serialized query: a header holding the transaction id and a question
/// count of one, then the encoded name, the record type and the Internet
/// class, all big-endian.
pub open spec fn spec_query_bytes(id: u16, wire_name: Seq<u8>, record_type: RecordType) -> Seq<
    u8,
> {
    be16_seq(id) + be16_seq(0) + be16_seq(1) + be16_seq(0) + be16_seq(0) + be16_seq(0) + wire_name
        + be16_seq(spec_record_type_value(record_type)) + be16_seq(CLASS_IN)
}

/// What the resolver does next after one decoded reply.
#[derive(PartialEq, Eq, Structural, Debug, Copy, Clone)]
pub enum ReplyAction {
    /// The answers section holds a record of the requested type: done.
    Answered,
    /// No answer, but the additionals section holds an A record — a glue
    /// address; the payload is that record's index.
    FollowGlue(usize),
    /// No answer and no glue, but the authorities section holds an NS record
    /// — a delegation by hostname; the payload is that record's index.
    FollowDelegation(usize),
    /// No answer, no glue, no delegation: nobody knows the name.
    Unknown,
}

/// Evaluate a decoded reply in strict priority order: an answer of the
/// requested type wins; failing that, the first glue address in the
/// additionals; failing that, the first NS delegation in the authorities;
/// failing all three, the domain is unknown. The contract pins both the
/// order and which record each branch names.
pub fn evaluate_reply(packet: &Packet, record_type: RecordType) -> (r: ReplyAction)
    ensures
        ({
            let answer = spec_first_of_type(packet.answers@, record_type, 0);
            let glue = spec_first_of_type(packet.additionals@, RecordType::A, 0);
            let delegation = spec_first_of_type(packet.authorities@, RecordType::NS, 0);
            match r {
                ReplyAction::Answered => answer is Some,
                ReplyAction::FollowGlue(i) => {
                    &&& answer is None
                    &&& glue == Some(i as int)
                    &&& i < packet.additionals@.len()
                    &&& packet.additionals@[i as int].r_type == RecordType::A
                },
                ReplyAction::FollowDelegation(i) => {
                    &&& answer is None
                    &&& glue is None
                    &&& delegation == Some(i as int)
                    &&& i < packet.authorities@.len()
                    &&& packet.authorities@[i as int].r_type == RecordType::NS
                },
                ReplyAction::Unknown => answer is None && glue is None && delegation is None,
            }
        }),
{
    if first_of_type(&packet.answers, record_type).is_some() {
        ReplyAction::Answered
    } else if let Some(i) = first_of_type(&packet.additionals, RecordType::A) {
        ReplyAction::FollowGlue(i)
    } else if let Some(i) = first_of_type(&packet.authorities, RecordType::NS) {
        ReplyAction::FollowDelegation(i)
    } else {
        ReplyAction::Unknown
    }
}

/// Append a 16-bit value big-endian.
fn push_u16(bytes: &mut Vec<u8>, v: u16)
    ensures
        final(bytes)@ == old(bytes)@ + be16_seq(v),
{
    bytes.push((v / 0x100) as u8);
    bytes.push((v % 0x100) as u8);
    proof {
        assert(bytes@ =~= old(bytes)@ + be16_seq(v));
    }
}

impl Query {
    /// Serialize the query into the bytes to send to a DNS server: the name
    /// encoding's failure is the only way this fails, so a query for a
    /// non-ASCII name fails here, before any transport is touched. With a
    /// seed the transaction id is a pure function of the seed.
    pub fn serialize(&self, rand_seed: Option<usize>) -> (r: Result<Vec<u8>, DnsError>)
        ensures
            match spec_encode_name(self.domain_name@) {
                Err(e) => r == Err::<Vec<u8>, DnsError>(e),
                Ok(w) => {
                    &&& r is Ok
                    &&& exists|id: u16|
                        r.unwrap()@ == #[trigger] spec_query_bytes(id, w, self.record_type)
                    &&& (rand_seed matches Some(s) ==> r.unwrap()@ == spec_query_bytes(
                        seeded_id_of(s as u64),
                        w,
                        self.record_type,
                    ))
                },
            },
    {
        let id: u16 = match rand_seed {
            None => random_id(),
            Some(value) => seeded_id(value as u64),
        };
        let name = RecordName { name: self.domain_name.as_str() };
        let encoded = match name.encode() {
            Ok(w) => w,
            Err(e) => {
                return Err(e);
            },
        };
        let mut bytes: Vec<u8> = Vec::new();
        push_u16(&mut bytes, id);
        push_u16(&mut bytes, 0);
        push_u16(&mut bytes, 1);
        push_u16(&mut bytes, 0);
        push_u16(&mut bytes, 0);
        push_u16(&mut bytes, 0);
        bytes.extend_from_slice(encoded.as_slice());
        push_u16(&mut bytes, RecordType::value(self.record_type));
        push_u16(&mut bytes, CLASS_IN);
        proof {
            assert(bytes@ =~= spec_query_bytes(
                id,
                spec_encode_name(self.domain_name@).unwrap(),
                self.record_type,
            ));
        }
        Ok(bytes)
    }

    /// Serialize the query, send it to the given server, receive one reply
    /// into a fixed-size buffer and parse the whole buffer. Any serialization
    /// failure is reported as one query-serialization error; whatever bytes
    /// come back, a packet is only returned when they parse in full.
    fn perform<S: Socket>(&self, socket: &mut S, dns_server_ip: &str, rand_seed: Option<usize>)
        -> (r: Result<(Packet, Vec<u8>, Vec<usize>), DnsError>)
        ensures
            r == Err::<(Packet, Vec<u8>, Vec<usize>), DnsError>(DnsError::QuerySerialization)
                <==> spec_encode_name(self.domain_name@) is Err,
            match r {
                Ok((packet, raw, offs)) => {
                    &&& spec_parse_full(raw@) matches Ok((p, o)) && p == packet@ && o
                        == offs@.map_values(|x: usize| x as int)
                    &&& offs@.len() == packet.authorities@.len()
                    &&& forall|k: int| 0 <= k < offs@.len() ==> #[trigger] offs@[k] <= raw@.len()
                },
                Err(e) => e == DnsError::QuerySerialization || e == DnsError::SocketSend || e
                    == DnsError::SocketRead || is_decode_error(e),
            },
    {
        let query_bytes = match self.serialize(rand_seed) {
            Ok(b) => b,
            Err(_) => {
                return Err(DnsError::QuerySerialization);
            },
        };
        let mut address = dns_server_ip.to_owned();
        address.append(":53");
        match socket.send(query_bytes.as_slice(), address.as_str()) {
            Ok(_) => (),
            Err(_) => {
                return Err(DnsError::SocketSend);
            },
        }
        let mut buf: Vec<u8> = vec![0u8; RESPONSE_BUFFER_LEN];
        match socket.recv_from(&mut buf) {
            Ok(_) => (),
            Err(_) => {
                return Err(DnsError::SocketRead);
            },
        }
        match parse_full(buf.as_slice()) {
            Err(e) => {
                proof {
                    crate::packet::lemma_parse_error_kind(buf@);
                }
                Err(e)
            },
            Ok((packet, offsets)) => {
                proof {
                    let m = offsets@.map_values(|x: usize| x as int);
                    assert forall|k: int| 0 <= k < offsets@.len() implies #[trigger] offsets@[k]
                        <= buf@.len() by {
                        assert(m[k] == offsets@[k] as int);
                        assert(0 <= m[k] <= buf@.len());
                    }
                }
                Ok((packet, buf, offsets))
            },
        }
    }

    /// One level of the delegation walk: query the chosen authority,
    /// evaluate the reply with `evaluate_reply`, and either accept the
    /// answer, follow a glue address, or resolve a delegated name server's
    /// own address one recursion level deeper.
    #[verifier::loop_isolation(false)]
    fn resolve_with_depth<S: Socket>(
        &self,
        socket: &mut S,
        recursion_depth: u16,
        rand_seed: Option<usize>,
    ) -> (r: Result<Packet, DnsError>)
        ensures
            recursion_depth >= MAX_RECURSION_DEPTH ==> r == Err::<Packet, DnsError>(
                DnsError::DelegationLimitExceeded,
            ),
            recursion_depth < MAX_RECURSION_DEPTH && spec_encode_name(self.domain_name@) is Err
                ==> r == Err::<Packet, DnsError>(DnsError::QuerySerialization),
            match r {
                Ok(packet) => {
                    &&& spec_first_of_type(packet.answers@, self.record_type, 0) is Some
                    &&& exists|raw: Seq<u8>|
                        #[trigger] spec_parse(raw) == Ok::<PacketV, DnsError>(packet@)
                    &&& packet.questions@.len() == packet.header.num_questions
                    &&& packet.answers@.len() == packet.header.num_answers
                    &&& packet.authorities@.len() == packet.header.num_authorities
                    &&& packet.additionals@.len() == packet.header.num_additionals
                },
                Err(e) => e == DnsError::QuerySerialization || e == DnsError::SocketSend || e
                    == DnsError::SocketRead || e == DnsError::UnknownDomainName || e
                    == DnsError::DelegationLimitExceeded || is_decode_error(e),
            },
        decreases MAX_RECURSION_DEPTH - recursion_depth,
    {
        if recursion_depth >= MAX_RECURSION_DEPTH {
            return Err(DnsError::DelegationLimitExceeded);
        }
        let root_server = RootServer::random(rand_seed);
        let mut name_server_ip: String = root_server.0;
        let mut steps: u32 = 0;
        while steps < MAX_DELEGATION_STEPS
            invariant
                steps <= MAX_DELEGATION_STEPS,
                steps > 0 ==> spec_encode_name(self.domain_name@) is Ok,
            decreases MAX_DELEGATION_STEPS - steps,
        {
            let (packet, raw, auth_offsets) = match self.perform(
                socket,
                name_server_ip.as_str(),
                rand_seed,
            ) {
                Ok(triple) => triple,
                Err(e) => {
                    return Err(e);
                },
            };
            match evaluate_reply(&packet, self.record_type) {
                ReplyAction::Answered => {
                    // The authority answered the question itself.
                    proof {
                        crate::packet::lemma_parse_counts(raw@);
                        assert(spec_parse(raw@) == Ok::<PacketV, DnsError>(packet@));
                    }
                    return Ok(packet);
                },
                ReplyAction::FollowGlue(glue) => {
                    // The authority handed us a more specific server's
                    // address directly: ask that server next.
                    let glue_record = &packet.additionals[glue];
                    name_server_ip = glue_record.ip_address();
                },
                ReplyAction::FollowDelegation(auth) => {
                    // The authority named a more specific server by hostname.
                    // Its name sits in the record's data, decoded against the
                    // full reply so compression pointers keep working;
                    // resolve that hostname's address in a fresh,
                    // one-level-deeper resolution.
                    let mut cursor = Cursor::new(raw.as_slice());
                    cursor.set_position(auth_offsets[auth]);
                    let ns_name_bytes = match RecordName::read_and_advance(&mut cursor) {
                        Ok(b) => b,
                        Err(e) => {
                            proof {
                                crate::record_name::lemma_read_parts_error_kind(
                                    raw@,
                                    auth_offsets[auth as int] as int,
                                    crate::record_name::MAX_POINTER_HOPS as int,
                                );
                            }
                            return Err(e);
                        },
                    };
                    let ns_name = match string_from_utf8(ns_name_bytes) {
                        Some(s) => s,
                        None => {
                            return Err(DnsError::InvalidByteInName);
                        },
                    };
                    let ns_query = Query { domain_name: ns_name, record_type: RecordType::A };
                    let ns_packet = match ns_query.resolve_with_depth(
                        socket,
                        recursion_depth + 1,
                        rand_seed,
                    ) {
                        Ok(p) => p,
                        Err(e) => {
                            return Err(e);
                        },
                    };
                    let ns_a = match first_of_type(&ns_packet.answers, RecordType::A) {
                        Some(k) => k,
                        None => {
                            return Err(DnsError::UnknownDomainName);
                        },
                    };
                    let ns_a_record = &ns_packet.answers[ns_a];
                    name_server_ip = ns_a_record.ip_address();
                },
                ReplyAction::Unknown => {
                    // No answer, no glue, no delegation: nobody knows the
                    // name.
                    return Err(DnsError::UnknownDomainName);
                },
            }
            steps = steps + 1;
        }
        Err(DnsError::DelegationLimitExceeded)
    }

    /// Resolve the query: walk the delegation chain from a randomly chosen
    /// root server until some authority answers. A query for a name that
    /// cannot be serialized fails with the serialization error before any
    /// transport activity; a returned packet always holds an answer record
    /// of the requested type, and exactly the section counts its header
    /// declares.
    pub fn resolve<S: Socket>(&self, socket: &mut S, rand_seed: Option<usize>) -> (r: Result<
        Packet,
        DnsError,
    >)
        ensures
            spec_encode_name(self.domain_name@) is Err ==> r == Err::<Packet, DnsError>(
                DnsError::QuerySerialization,
            ),
            match r {
                Ok(packet) => {
                    &&& spec_first_of_type(packet.answers@, self.record_type, 0) is Some
                    &&& exists|raw: Seq<u8>|
                        #[trigger] spec_parse(raw) == Ok::<PacketV, DnsError>(packet@)
                    &&& packet.questions@.len() == packet.header.num_questions
                    &&& packet.answers@.len() == packet.header.num_answers
                    &&& packet.authorities@.len() == packet.header.num_authorities
                    &&& packet.additionals@.len() == packet.header.num_additionals
                },
                Err(e) => e == DnsError::QuerySerialization || e == DnsError::SocketSend || e
                    == DnsError::SocketRead || e == DnsError::UnknownDomainName || e
                    == DnsError::DelegationLimitExceeded || is_decode_error(e),
            },
    {
        self.resolve_with_depth(socket, 0, rand_seed)
    }
}

} // verus!

//! Resource records and their closed set of record types. A record is a
//! (name, type, class, ttl, data) tuple; an A record's four data bytes are an
//! IPv4 address, rendered in dotted decimal.

use crate::cursor::{spec_read_bytes, spec_read_u16, spec_read_u32, Cursor};
use crate::errors::DnsError;
use crate::record_name::{join_dots, spec_read_name, RecordName, DOT};
use crate::text::{ascii_chars_of, lemma_ascii_bytes_utf8, string_from_utf8};
use vstd::prelude::*;

verus! {

/// The record types this resolver recognizes. The set is closed: any other
/// wire value is a decode error, never an "unknown" variant.
#[derive(PartialEq, Eq, Structural, Debug, Copy, Clone)]
pub enum RecordType {
    Invalid,
    A,
    NS,
    AAAA,
}

/// The wire value of each record type. Types with value at most 16 are from
/// RFC 1035; AAAA is from RFC 3596.
pub open spec fn spec_record_type_value(record_type: RecordType) -> u16 {
    match record_type {
        RecordType::Invalid => 0,
        RecordType::A => 1,
        RecordType::NS => 2,
        RecordType::AAAA => 28,
    }
}

/// The record type a wire value stands for: total over all 16-bit values,
/// and `None` outside the closed set {0, 1, 2, 28}.
pub open spec fn spec_record_type_from(value: u16) -> Option<RecordType> {
    if value == 0 {
        Some(RecordType::Invalid)
    } else if value == 1 {
        Some(RecordType::A)
    } else if value == 2 {
        Some(RecordType::NS)
    } else if value == 28 {
        Some(RecordType::AAAA)
    } else {
        None
    }
}

impl RecordType {
    /// The integer wire value of a record type.
    pub fn value(record_type: RecordType) -> (v: u16)
        ensures
            v == spec_record_type_value(record_type),
    {
        match record_type {
            RecordType::Invalid => 0,
            RecordType::A => 1,
            RecordType::NS => 2,
            RecordType::AAAA => 28,
        }
    }

    /// The record type for a wire value; `None` for every value outside the
    /// closed set {0, 1, 2, 28}.
    pub fn from(record_type_value: u16) -> (r: Option<RecordType>)
        ensures
            r == spec_record_type_from(record_type_value),
    {
        match record_type_value {
            0 => Some(RecordType::Invalid),
            1 => Some(RecordType::A),
            2 => Some(RecordType::NS),
            28 => Some(RecordType::AAAA),
            _ => None,
        }
    }
}

/// Wire values and record types correspond one-to-one: decoding a type's
/// value gives the type back, and any value that decodes encodes back to
/// itself.
pub proof fn lemma_record_type_round_trip(t: RecordType, v: u16)
    ensures
        spec_record_type_from(spec_record_type_value(t)) == Some(t),
        spec_record_type_from(v) matches Some(u) ==> spec_record_type_value(u) == v,
{
}

/// One DNS resource record.
#[derive(Debug)]
pub struct Record {
    /// Name of the DNS Record.
    pub name: Vec<u8>,
    /// Type of the DNS Record.
    pub r_type: RecordType,
    /// Class of the DNS Record.
    pub r_class: u16,
    /// TTL for the DNS record, in seconds.
    pub ttl: u32,
    /// Data for the DNS record.
    pub data: Vec<u8>,
}

/// The mathematical value of a record: its byte fields as sequences.
pub struct RecordV {
    pub name: Seq<u8>,
    pub r_type: RecordType,
    pub r_class: u16,
    pub ttl: u32,
    pub data: Seq<u8>,
}

impl View for Record {
    type V = RecordV;

    open spec fn view(&self) -> RecordV {
        RecordV {
            name: self.name@,
            r_type: self.r_type,
            r_class: self.r_class,
            ttl: self.ttl,
            data: self.data@,
        }
    }
}

impl DeepView for Record {
    type V = RecordV;

    open spec fn deep_view(&self) -> RecordV {
        self.view()
    }
}

impl Clone for Record {
    fn clone(&self) -> (r: Self)
        ensures
            r@ == self@,
    {
        Record {
            name: self.name.clone(),
            r_type: self.r_type,
            r_class: self.r_class,
            ttl: self.ttl,
            data: self.data.clone(),
        }
    }
}

impl PartialEq for Record {
    fn eq(&self, other: &Self) -> (r: bool) {
        let r = self.name == other.name && self.r_type == other.r_type && self.r_class
            == other.r_class && self.ttl == other.ttl && self.data == other.data;
        proof {
            if r {
                assert(self.name@ =~= other.name@);
                assert(self.data@ =~= other.data@);
            } else if self@ == other@ {
                assert(self.name@ =~= other.name@);
                assert(self.data@ =~= other.data@);
                assert(false);
            }
        }
        r
    }
}

impl vstd::std_specs::cmp::PartialEqSpecImpl for Record {
    open spec fn obeys_eq_spec() -> bool {
        true
    }

    open spec fn eq_spec(&self, other: &Self) -> bool {
        self@ == other@
    }
}

impl Default for Record {
    /// An empty record: no name, no data, the `Invalid` type.
    fn default() -> (r: Self)
        ensures
            r@ == (RecordV {
                name: Seq::<u8>::empty(),
                r_type: RecordType::Invalid,
                r_class: 0u16,
                ttl: 0u32,
                data: Seq::<u8>::empty(),
            }),
    {
        Record { name: Vec::new(), r_type: RecordType::Invalid, r_class: 0, ttl: 0, data: Vec::new() }
    }
}

/// The decimal digit bytes of one byte's value, most significant first,
/// without leading zeros.
pub open spec fn spec_dec_bytes(b: u8) -> Seq<u8> {
    if b < 10 {
        seq![(48 + b) as u8]
    } else if b < 100 {
        seq![(48 + b / 10) as u8, (48 + b % 10) as u8]
    } else {
        seq![(48 + b / 100) as u8, (48 + (b / 10) % 10) as u8, (48 + b % 10) as u8]
    }
}

/// A byte sequence rendered in dotted decimal: each byte's decimal digits,
/// joined with dots.
pub open spec fn spec_ip_address(data: Seq<u8>) -> Seq<char> {
    ascii_chars_of(join_dots(data.map_values(|b: u8| spec_dec_bytes(b))))
}

/// The decimal digit bytes of one byte's value.
fn dec_bytes(b: u8) -> (r: Vec<u8>)
    ensures
        r@ == spec_dec_bytes(b),
{
    let mut out: Vec<u8> = Vec::new();
    if b >= 100 {
        out.push(48 + b / 100);
    }
    if b >= 10 {
        out.push(48 + (b / 10) % 10);
    }
    out.push(48 + b % 10);
    proof {
        assert(out@ =~= spec_dec_bytes(b));
    }
    out
}

impl Record {
    /// The record's data rendered in dotted decimal: for an A record, the
    /// IPv4 address it holds.
    pub fn ip_address(&self) -> (r: String)
        ensures
            r@ == spec_ip_address(self.data@),
    {
        let ghost dv = self.data@.map_values(|b: u8| spec_dec_bytes(b));
        let mut bytes: Vec<u8> = Vec::new();
        let mut i: usize = 0;
        while i < self.data.len()
            invariant
                i <= self.data@.len(),
                dv == self.data@.map_values(|b: u8| spec_dec_bytes(b)),
                bytes@ == join_dots(dv.take(i as int)),
                forall|k: int| 0 <= k < bytes@.len() ==> bytes@[k] < 128,
            decreases self.data@.len() - i,
        {
            if i > 0 {
                bytes.push(DOT);
            }
            let mut digits = dec_bytes(self.data[i]);
            bytes.append(&mut digits);
            proof {
                crate::record_name::lemma_join_dots_push(dv.take(i as int), dv[i as int]);
                assert(dv.take(i as int + 1) =~= dv.take(i as int).push(dv[i as int]));
            }
            i = i + 1;
        }
        proof {
            assert(dv.take(self.data@.len() as int) =~= dv);
            lemma_ascii_bytes_utf8(bytes@);
        }
        let r = string_from_utf8(bytes);
        r.unwrap()
    }

    /// Read a DNS record at the cursor: name, type, class, TTL, then a 16-bit
    /// data length followed by exactly that many data bytes. The cursor
    /// advances past the record on success; the buffer under it never
    /// changes.
    pub fn read_and_advance(cursor: &mut Cursor) -> (r: Result<Record, DnsError>)
        ensures
            final(cursor).spec_data() == old(cursor).spec_data(),
            match spec_read_record(old(cursor).spec_data(), old(cursor).spec_pos()) {
                Ok((rec, end)) => {
                    &&& r is Ok
                    &&& r.unwrap()@ == rec
                    &&& final(cursor).spec_pos() == end
                },
                Err(e) => r == Err::<Record, DnsError>(e),
            },
    {
        let record_name = match RecordName::read_and_advance(cursor) {
            Ok(n) => n,
            Err(e) => {
                return Err(e);
            },
        };
        let Some(parsed_type) = cursor.read_u16_be() else {
            return Err(DnsError::ReadRecordType);
        };
        let Some(record_type) = RecordType::from(parsed_type) else {
            return Err(DnsError::UnrecognizedRecordType);
        };
        let Some(parsed_class) = cursor.read_u16_be() else {
            return Err(DnsError::ReadRecordClass);
        };
        let Some(parsed_ttl) = cursor.read_u32_be() else {
            return Err(DnsError::ReadRecordTTL);
        };
        let Some(parsed_data_length) = cursor.read_u16_be() else {
            return Err(DnsError::ReadRecordDataLength);
        };
        let Some(data) = cursor.read_bytes(parsed_data_length as usize) else {
            return Err(DnsError::ReadRecordData);
        };
        Ok(Record {
            name: record_name,
            r_type: record_type,
            r_class: parsed_class,
            ttl: parsed_ttl,
            data,
        })
    }
}

/// The record at `pos`: a name, three fixed fields, and a length-prefixed
/// data payload that must be present in full.
pub open spec fn spec_read_record(data: Seq<u8>, pos: int) -> Result<(RecordV, int), DnsError> {
    match spec_read_name(data, pos) {
        Err(e) => Err(e),
        Ok((name, p1)) => match spec_read_u16(data, p1) {
            None => Err(DnsError::ReadRecordType),
            Some((tv, p2)) => match spec_record_type_from(tv) {
                None => Err(DnsError::UnrecognizedRecordType),
                Some(r_type) => match spec_read_u16(data, p2) {
                    None => Err(DnsError::ReadRecordClass),
                    Some((r_class, p3)) => match spec_read_u32(data, p3) {
                        None => Err(DnsError::ReadRecordTTL),
                        Some((ttl, p4)) => match spec_read_u16(data, p4) {
                            None => Err(DnsError::ReadRecordDataLength),
                            Some((dl, p5)) => match spec_read_bytes(data, p5, dl as int) {
                                None => Err(DnsError::ReadRecordData),
                                Some((payload, p6)) => Ok(
                                    (RecordV { name, r_type, r_class, ttl, data: payload }, p6),
                                ),
                            },
                        },
                    },
                },
            },
        },
    }
}

/// A record whose declared data length exceeds the bytes that remain in the
/// message always fails to decode with the data-read error: the payload is
/// never silently truncated.
pub proof fn lemma_record_data_length_mismatch(data: Seq<u8>, pos: int)
    requires
        ({
            let name_read = spec_read_name(data, pos);
            &&& name_read is Ok
            &&& {
                let p1 = name_read.unwrap().1;
                let type_read = spec_read_u16(data, p1);
                &&& type_read is Some
                &&& spec_record_type_from(type_read.unwrap().0) is Some
                &&& {
                    let p2 = type_read.unwrap().1;
                    let class_read = spec_read_u16(data, p2);
                    &&& class_read is Some
                    &&& {
                        let p3 = class_read.unwrap().1;
                        let ttl_read = spec_read_u32(data, p3);
                        &&& ttl_read is Some
                        &&& {
                            let p4 = ttl_read.unwrap().1;
                            let len_read = spec_read_u16(data, p4);
                            &&& len_read is Some
                            &&& len_read.unwrap().1 + len_read.unwrap().0 > data.len()
                        }
                    }
                }
            }
        }),
    ensures
        spec_read_record(data, pos) == Err::<(RecordV, int), DnsError>(DnsError::ReadRecordData),
{
}

/// The index of the first record of type `t` at or after `i`, if any.
pub open spec fn spec_first_of_type(s: Seq<Record>, t: RecordType, i: int) -> Option<int>
    decreases s.len() - i,
{
    if i < 0 || i >= s.len() {
        None
    } else if s[i].r_type == t {
        Some(i)
    } else {
        spec_first_of_type(s, t, i + 1)
    }
}

/// A scan that found no record of type `t` before `i` can pick up the search
/// at `i`.
pub proof fn lemma_first_of_type_scan(s: Seq<Record>, t: RecordType, from: int, i: int)
    requires
        0 <= from <= i <= s.len(),
        forall|j: int| from <= j < i ==> s[j].r_type != t,
    ensures
        spec_first_of_type(s, t, from) == spec_first_of_type(s, t, i),
    decreases i - from,
{
    if from < i {
        lemma_first_of_type_scan(s, t, from + 1, i);
    }
}

/// The index of the first record of type `t`, if any.
pub(crate) fn first_of_type(records: &Vec<Record>, t: RecordType) -> (r: Option<usize>)
    ensures
        match spec_first_of_type(records@, t, 0) {
            None => r is None,
            Some(i) => {
                &&& r is Some
                &&& r.unwrap() as int == i
                &&& 0 <= i < records@.len()
                &&& records@[i].r_type == t
            },
        },
{
    let mut i: usize = 0;
    while i < records.len()
        invariant
            i <= records@.len(),
            forall|j: int| 0 <= j < i ==> records@[j].r_type != t,
        decreases records@.len() - i,
    {
        if records[i].r_type == t {
            proof {
                lemma_first_of_type_scan(records@, t, 0, i as int);
            }
            return Some(i);
        }
        i = i + 1;
    }
    proof {
        lemma_first_of_type_scan(records@, t, 0, records@.len() as int);
    }
    None
}

/// Selection of records out of a decoded section.
pub trait DnsRecordGetters {
    /// Get the first A record from the records, if any.
    fn get_first_a_record(&self) -> Option<&Record>;

    /// Get the first NS record from the records, if any.
    fn get_first_ns_record(&self) -> Option<&Record>;
}

impl DnsRecordGetters for Vec<Record> {
    /// The first A record, in section order.
    fn get_first_a_record(&self) -> (r: Option<&Record>)
        ensures
            match spec_first_of_type(self@, RecordType::A, 0) {
                None => r is None,
                Some(i) => r is Some && *r.unwrap() == self@[i],
            },
    {
        match first_of_type(self, RecordType::A) {
            None => None,
            Some(i) => Some(&self[i]),
        }
    }

    /// The first NS record, in section order.
    fn get_first_ns_record(&self) -> (r: Option<&Record>)
        ensures
            match spec_first_of_type(self@, RecordType::NS, 0) {
                None => r is None,
                Some(i) => r is Some && *r.unwrap() == self@[i],
            },
    {
        match first_of_type(self, RecordType::NS) {
            None => None,
            Some(i) => Some(&self[i]),
        }
    }
}

} // verus!

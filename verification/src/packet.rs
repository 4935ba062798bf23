//! A whole DNS message: header, questions, answers, authorities, additionals.
//! Decoding is all-or-nothing: the header's counts say how many elements each
//! section has, and the first failure anywhere aborts the whole parse.

use crate::cursor::Cursor;
use crate::errors::DnsError;
use crate::header::{spec_read_header, Header};
use crate::question::{spec_read_question, Question, QuestionV};
use crate::record::{spec_read_record, Record, RecordV};
use vstd::prelude::*;

verus! {

/// One decoded DNS message.
pub struct Packet {
    /// Header of a DNS packet.
    pub header: Header,
    /// Questions in a DNS packet.
    pub questions: Vec<Question>,
    /// Answers in a DNS packet.
    pub answers: Vec<Record>,
    /// Authorities in a DNS packet.
    pub authorities: Vec<Record>,
    /// Additional records in a DNS packet.
    pub additionals: Vec<Record>,
}

/// The mathematical value of a packet.
pub struct PacketV {
    pub header: Header,
    pub questions: Seq<QuestionV>,
    pub answers: Seq<RecordV>,
    pub authorities: Seq<RecordV>,
    pub additionals: Seq<RecordV>,
}

impl View for Packet {
    type V = PacketV;

    open spec fn view(&self) -> PacketV {
        PacketV {
            header: self.header,
            questions: self.questions.deep_view(),
            answers: self.answers.deep_view(),
            authorities: self.authorities.deep_view(),
            additionals: self.additionals.deep_view(),
        }
    }
}

/// `n` questions in a row starting at `pos`, and the position after them.
pub open spec fn spec_read_questions(data: Seq<u8>, pos: int, n: int) -> Result<
    (Seq<QuestionV>, int),
    DnsError,
>
    decreases n,
{
    if n <= 0 {
        Ok((seq![], pos))
    } else {
        match spec_read_question(data, pos) {
            Err(e) => Err(e),
            Ok((q, p)) => match spec_read_questions(data, p, n - 1) {
                Err(e) => Err(e),
                Ok((qs, end)) => Ok((seq![q] + qs, end)),
            },
        }
    }
}

/// `n` records in a row starting at `pos`, the offset of each record's data
/// payload inside the message, and the position after the records.
pub open spec fn spec_read_records(data: Seq<u8>, pos: int, n: int) -> Result<
    (Seq<RecordV>, Seq<int>, int),
    DnsError,
>
    decreases n,
{
    if n <= 0 {
        Ok((seq![], seq![], pos))
    } else {
        match spec_read_record(data, pos) {
            Err(e) => Err(e),
            Ok((r, p)) => match spec_read_records(data, p, n - 1) {
                Err(e) => Err(e),
                Ok((rs, offs, end)) => Ok(
                    (seq![r] + rs, seq![p - r.data.len()] + offs, end),
                ),
            },
        }
    }
}

/// A successful section decode yields exactly as many elements as asked for.
pub proof fn lemma_read_sections_len(data: Seq<u8>, pos: int, n: int)
    requires
        n >= 0,
    ensures
        spec_read_questions(data, pos, n) matches Ok((qs, _)) ==> qs.len() == n,
        spec_read_records(data, pos, n) matches Ok((rs, offs, _)) ==> rs.len() == n && offs.len()
            == n,
    decreases n,
{
    if n > 0 {
        match spec_read_question(data, pos) {
            Ok((q, p)) => lemma_read_sections_len(data, p, n - 1),
            Err(_) => (),
        }
        match spec_read_record(data, pos) {
            Ok((r, p)) => lemma_read_sections_len(data, p, n - 1),
            Err(_) => (),
        }
    }
}

/// The whole message: a header, then exactly the numbers of questions,
/// answers, authorities and additionals the header declares, in that order;
/// also the data-payload offset of each authority record. The first failure
/// is the failure of the whole parse.
pub open spec fn spec_parse_full(data: Seq<u8>) -> Result<(PacketV, Seq<int>), DnsError> {
    match spec_read_header(data, 0) {
        Err(e) => Err(e),
        Ok((header, p0)) => match spec_read_questions(data, p0, header.num_questions as int) {
            Err(e) => Err(e),
            Ok((questions, p1)) => match spec_read_records(data, p1, header.num_answers as int) {
                Err(e) => Err(e),
                Ok((answers, _, p2)) => match spec_read_records(
                    data,
                    p2,
                    header.num_authorities as int,
                ) {
                    Err(e) => Err(e),
                    Ok((authorities, auth_offs, p3)) => match spec_read_records(
                        data,
                        p3,
                        header.num_additionals as int,
                    ) {
                        Err(e) => Err(e),
                        Ok((additionals, _, _)) => Ok(
                            (
                                PacketV { header, questions, answers, authorities, additionals },
                                auth_offs,
                            ),
                        ),
                    },
                },
            },
        },
    }
}

/// The whole message, without the bookkeeping offsets.
pub open spec fn spec_parse(data: Seq<u8>) -> Result<PacketV, DnsError> {
    match spec_parse_full(data) {
        Ok((p, _)) => Ok(p),
        Err(e) => Err(e),
    }
}

/// A parsed packet holds exactly the numbers of elements its header declares.
pub proof fn lemma_parse_counts(data: Seq<u8>)
    ensures
        spec_parse(data) matches Ok(p) ==> {
            &&& p.questions.len() == p.header.num_questions
            &&& p.answers.len() == p.header.num_answers
            &&& p.authorities.len() == p.header.num_authorities
            &&& p.additionals.len() == p.header.num_additionals
        },
{
    match spec_read_header(data, 0) {
        Err(_) => (),
        Ok((header, p0)) => {
            lemma_read_sections_len(data, p0, header.num_questions as int);
            match spec_read_questions(data, p0, header.num_questions as int) {
                Err(_) => (),
                Ok((_, p1)) => {
                    lemma_read_sections_len(data, p1, header.num_answers as int);
                    match spec_read_records(data, p1, header.num_answers as int) {
                        Err(_) => (),
                        Ok((_, _, p2)) => {
                            lemma_read_sections_len(data, p2, header.num_authorities as int);
                            match spec_read_records(data, p2, header.num_authorities as int) {
                                Err(_) => (),
                                Ok((_, _, p3)) => {
                                    lemma_read_sections_len(
                                        data,
                                        p3,
                                        header.num_additionals as int,
                                    );
                                },
                            }
                        },
                    }
                },
            }
        },
    }
}

/// Section decoding fails only with a decode-error kind.
proof fn lemma_sections_error_kind(data: Seq<u8>, pos: int, n: int)
    ensures
        spec_read_questions(data, pos, n) matches Err(e) ==> crate::errors::is_decode_error(e),
        spec_read_records(data, pos, n) matches Err(e) ==> crate::errors::is_decode_error(e),
    decreases n,
{
    if n > 0 {
        crate::record_name::lemma_read_parts_error_kind(
            data,
            pos,
            crate::record_name::MAX_POINTER_HOPS as int,
        );
        match spec_read_question(data, pos) {
            Ok((_, p)) => lemma_sections_error_kind(data, p, n - 1),
            Err(_) => (),
        }
        match spec_read_record(data, pos) {
            Ok((_, p)) => lemma_sections_error_kind(data, p, n - 1),
            Err(_) => (),
        }
    }
}

/// Packet decoding fails only with a decode-error kind: never with a
/// transport, encoding or resolution-level error.
pub proof fn lemma_parse_error_kind(data: Seq<u8>)
    ensures
        spec_parse_full(data) matches Err(e) ==> crate::errors::is_decode_error(e),
        spec_parse(data) matches Err(e) ==> crate::errors::is_decode_error(e),
{
    match spec_read_header(data, 0) {
        Err(_) => (),
        Ok((header, p0)) => {
            lemma_sections_error_kind(data, p0, header.num_questions as int);
            match spec_read_questions(data, p0, header.num_questions as int) {
                Err(_) => (),
                Ok((_, p1)) => {
                    lemma_sections_error_kind(data, p1, header.num_answers as int);
                    match spec_read_records(data, p1, header.num_answers as int) {
                        Err(_) => (),
                        Ok((_, _, p2)) => {
                            lemma_sections_error_kind(data, p2, header.num_authorities as int);
                            match spec_read_records(data, p2, header.num_authorities as int) {
                                Err(_) => (),
                                Ok((_, _, p3)) => {
                                    lemma_sections_error_kind(
                                        data,
                                        p3,
                                        header.num_additionals as int,
                                    );
                                },
                            }
                        },
                    }
                },
            }
        },
    }
}

/// A buffer that ends exactly at the header, with all four counts zero,
/// parses successfully to an empty packet: no questions and three empty
/// record sections.
pub proof fn lemma_parse_header_only(data: Seq<u8>)
    requires
        data.len() == 12,
        forall|k: int| 4 <= k < 12 ==> data[k] == 0,
    ensures
        spec_parse(data) matches Ok(p) && p.questions.len() == 0 && p.answers.len() == 0
            && p.authorities.len() == 0 && p.additionals.len() == 0,
{
    match spec_read_header(data, 0) {
        Err(_) => {
            assert(false);
        },
        Ok((h, p0)) => {
            assert(h.num_questions == crate::cursor::be16(data[4], data[5]));
            assert(h.num_questions == 0 && h.num_answers == 0 && h.num_authorities == 0
                && h.num_additionals == 0);
        },
    }
}

/// `n` questions read at the cursor, as `spec_read_questions` describes them.
#[verifier::loop_isolation(false)]
fn read_questions(cursor: &mut Cursor, n: u16) -> (r: Result<Vec<Question>, DnsError>)
    ensures
        final(cursor).spec_data() == old(cursor).spec_data(),
        match spec_read_questions(old(cursor).spec_data(), old(cursor).spec_pos(), n as int) {
            Ok((qs, end)) => {
                &&& r is Ok
                &&& r.unwrap().deep_view() == qs
                &&& final(cursor).spec_pos() == end
            },
            Err(e) => r == Err::<Vec<Question>, DnsError>(e),
        },
{
    let ghost data0 = cursor.spec_data();
    let ghost pos0 = cursor.spec_pos();
    let mut questions: Vec<Question> = Vec::new();
    let mut j: u16 = 0;
    while j < n
        invariant
            j <= n,
            cursor.spec_data() == data0,
            questions.deep_view().len() == j as int,
            match spec_read_questions(data0, cursor.spec_pos(), n - j) {
                Ok((qs, end)) => spec_read_questions(data0, pos0, n as int) == Ok::<
                    (Seq<QuestionV>, int),
                    DnsError,
                >((questions.deep_view() + qs, end)),
                Err(e) => spec_read_questions(data0, pos0, n as int) == Err::<
                    (Seq<QuestionV>, int),
                    DnsError,
                >(e),
            },
        decreases n - j,
    {
        let ghost qs_before = questions.deep_view();
        let question = match Question::read_and_advance(cursor) {
            Ok(q) => q,
            Err(e) => {
                return Err(e);
            },
        };
        questions.push(question);
        proof {
            assert(questions.deep_view() =~~= qs_before + seq![question@]);
            match spec_read_questions(data0, cursor.spec_pos(), n - j - 1) {
                Ok((qs, _)) => {
                    assert(qs_before + (seq![question@] + qs) =~= (qs_before + seq![question@])
                        + qs);
                },
                Err(_) => (),
            }
        }
        j = j + 1;
    }
    proof {
        assert(questions.deep_view() + seq![] =~= questions.deep_view());
    }
    Ok(questions)
}

/// `n` records read at the cursor, together with the offset of each record's
/// data payload inside the message, as `spec_read_records` describes them.
#[verifier::loop_isolation(false)]
fn read_records(cursor: &mut Cursor, n: u16) -> (r: Result<(Vec<Record>, Vec<usize>), DnsError>)
    ensures
        final(cursor).spec_data() == old(cursor).spec_data(),
        match spec_read_records(old(cursor).spec_data(), old(cursor).spec_pos(), n as int) {
            Ok((rs, offs, end)) => {
                &&& r is Ok
                &&& r.unwrap().0.deep_view() == rs
                &&& r.unwrap().1@.map_values(|o: usize| o as int) == offs
                &&& final(cursor).spec_pos() == end
                &&& forall|k: int|
                    0 <= k < offs.len() ==> 0 <= #[trigger] offs[k] <= old(cursor).spec_data().len()
            },
            Err(e) => r == Err::<(Vec<Record>, Vec<usize>), DnsError>(e),
        },
{
    let ghost data0 = cursor.spec_data();
    let ghost pos0 = cursor.spec_pos();
    let mut records: Vec<Record> = Vec::new();
    let mut offsets: Vec<usize> = Vec::new();
    let mut j: u16 = 0;
    while j < n
        invariant
            j <= n,
            cursor.spec_data() == data0,
            records.deep_view().len() == j as int,
            offsets@.len() == j as int,
            forall|k: int| 0 <= k < offsets@.len() ==> #[trigger] offsets@[k] <= data0.len(),
            match spec_read_records(data0, cursor.spec_pos(), n - j) {
                Ok((rs, offs, end)) => spec_read_records(data0, pos0, n as int) == Ok::<
                    (Seq<RecordV>, Seq<int>, int),
                    DnsError,
                >(
                    (
                        records.deep_view() + rs,
                        offsets@.map_values(|o: usize| o as int) + offs,
                        end,
                    ),
                ),
                Err(e) => spec_read_records(data0, pos0, n as int) == Err::<
                    (Seq<RecordV>, Seq<int>, int),
                    DnsError,
                >(e),
            },
        decreases n - j,
    {
        let ghost rs_before = records.deep_view();
        let ghost offs_before = offsets@.map_values(|o: usize| o as int);
        let record = match Record::read_and_advance(cursor) {
            Ok(rec) => rec,
            Err(e) => {
                return Err(e);
            },
        };
        let end = cursor.position();
        assert(record@.data.len() <= end && end <= data0.len());
        let off = end - record.data.len();
        records.push(record);
        offsets.push(off);
        proof {
            assert(records.deep_view() =~~= rs_before + seq![record@]);
            assert(offsets@.map_values(|o: usize| o as int) =~= offs_before + seq![off as int]);
            match spec_read_records(data0, cursor.spec_pos(), n - j - 1) {
                Ok((rs, offs, _)) => {
                    assert(rs_before + (seq![record@] + rs) =~= (rs_before + seq![record@]) + rs);
                    assert(offs_before + (seq![off as int] + offs) =~= (offs_before + seq![
                        off as int,
                    ]) + offs);
                },
                Err(_) => (),
            }
        }
        j = j + 1;
    }
    proof {
        assert(records.deep_view() + seq![] =~= records.deep_view());
        assert(offsets@.map_values(|o: usize| o as int) + seq![] =~= offsets@.map_values(
            |o: usize| o as int,
        ));
    }
    Ok((records, offsets))
}

/// A parsed packet together with the message buffer offset of each authority
/// record's data payload; the resolver decodes delegated server names from
/// those payloads against the full message, so compression pointers inside
/// them keep working.
pub(crate) fn parse_full(buffer: &[u8]) -> (r: Result<(Packet, Vec<usize>), DnsError>)
    ensures
        match spec_parse_full(buffer@) {
            Ok((p, offs)) => {
                &&& r is Ok
                &&& r.unwrap().0@ == p
                &&& r.unwrap().1@.map_values(|o: usize| o as int) == offs
                &&& r.unwrap().1@.len() == r.unwrap().0.authorities@.len()
                &&& forall|k: int| 0 <= k < offs.len() ==> 0 <= #[trigger] offs[k] <= buffer@.len()
            },
            Err(e) => r matches Err(e2) && e2 == e,
        },
{
    let mut cursor = Cursor::new(buffer);
    let header = match Header::read_and_advance(&mut cursor) {
        Ok(h) => h,
        Err(e) => {
            return Err(e);
        },
    };
    let questions = match read_questions(&mut cursor, header.num_questions) {
        Ok(qs) => qs,
        Err(e) => {
            return Err(e);
        },
    };
    let answers = match read_records(&mut cursor, header.num_answers) {
        Ok((rs, _)) => rs,
        Err(e) => {
            return Err(e);
        },
    };
    proof {
        lemma_read_sections_len(buffer@, cursor.spec_pos(), header.num_authorities as int);
    }
    let (authorities, auth_offsets) = match read_records(&mut cursor, header.num_authorities) {
        Ok(pair) => pair,
        Err(e) => {
            return Err(e);
        },
    };
    let additionals = match read_records(&mut cursor, header.num_additionals) {
        Ok((rs, _)) => rs,
        Err(e) => {
            return Err(e);
        },
    };
    Ok((Packet { header, questions, answers, authorities, additionals }, auth_offsets))
}

impl Packet {
    /// Parse a DNS packet from the given buffer: all-or-nothing, never a
    /// partial packet. On success the packet holds exactly the numbers of
    /// questions and records its header declares.
    pub fn parse(buffer: &[u8]) -> (r: Result<Packet, DnsError>)
        ensures
            match spec_parse(buffer@) {
                Ok(p) => {
                    &&& r is Ok
                    &&& r.unwrap()@ == p
                    &&& r.unwrap()@.questions.len() == p.header.num_questions
                    &&& r.unwrap()@.answers.len() == p.header.num_answers
                    &&& r.unwrap()@.authorities.len() == p.header.num_authorities
                    &&& r.unwrap()@.additionals.len() == p.header.num_additionals
                },
                Err(e) => r matches Err(e2) && e2 == e,
            },
    {
        proof {
            lemma_parse_counts(buffer@);
        }
        match parse_full(buffer) {
            Ok((packet, _)) => Ok(packet),
            Err(e) => Err(e),
        }
    }
}

} // verus!

//! The fixed 12-byte DNS message header: id, flags, and the four section
//! counts, all 16-bit big-endian. The counts are the only authority for how
//! many questions and records follow the header.

use crate::cursor::{spec_read_u16, Cursor};
use crate::errors::DnsError;
use vstd::prelude::*;

verus! {

/// A DNS message header. See RFC 1035 section 4.1.1.
#[derive(Debug, PartialEq, Eq, Structural)]
pub struct Header {
    /// ID of the DNS message.
    pub id: u16,
    /// Flags for the DNS message, kept as an opaque bit field.
    pub flags: u16,
    /// The number of questions in the DNS message.
    pub num_questions: u16,
    /// The number of answers in the DNS message.
    pub num_answers: u16,
    /// The number of authorities in the DNS message.
    pub num_authorities: u16,
    /// The number of additional records in the DNS message.
    pub num_additionals: u16,
}

impl Default for Header {
    /// The all-zero header.
    fn default() -> (h: Self)
        ensures
            h == (Header {
                id: 0u16,
                flags: 0u16,
                num_questions: 0u16,
                num_answers: 0u16,
                num_authorities: 0u16,
                num_additionals: 0u16,
            }),
    {
        Header {
            id: 0,
            flags: 0,
            num_questions: 0,
            num_answers: 0,
            num_authorities: 0,
            num_additionals: 0,
        }
    }
}

/// The header at `pos`: six 16-bit big-endian fields in order, each
/// truncation reported as that field's own error.
pub open spec fn spec_read_header(data: Seq<u8>, pos: int) -> Result<(Header, int), DnsError> {
    match spec_read_u16(data, pos) {
        None => Err(DnsError::ParseId),
        Some((id, p1)) => match spec_read_u16(data, p1) {
            None => Err(DnsError::ParseFlag),
            Some((flags, p2)) => match spec_read_u16(data, p2) {
                None => Err(DnsError::ParseQuestionCount),
                Some((num_questions, p3)) => match spec_read_u16(data, p3) {
                    None => Err(DnsError::ParseAnswerCount),
                    Some((num_answers, p4)) => match spec_read_u16(data, p4) {
                        None => Err(DnsError::ParseAuthorityCount),
                        Some((num_authorities, p5)) => match spec_read_u16(data, p5) {
                            None => Err(DnsError::ParseAdditionalCount),
                            Some((num_additionals, p6)) => Ok(
                                (
                                    Header {
                                        id,
                                        flags,
                                        num_questions,
                                        num_answers,
                                        num_authorities,
                                        num_additionals,
                                    },
                                    p6,
                                ),
                            ),
                        },
                    },
                },
            },
        },
    }
}

impl Header {
    /// Read a DNS message header at the cursor. The cursor advances past the
    /// header on success and stays at the last field boundary it reached on
    /// failure; the buffer under it never changes.
    pub fn read_and_advance(cursor: &mut Cursor) -> (r: Result<Header, DnsError>)
        ensures
            final(cursor).spec_data() == old(cursor).spec_data(),
            match spec_read_header(old(cursor).spec_data(), old(cursor).spec_pos()) {
                Ok((h, end)) => r == Ok::<Header, DnsError>(h) && final(cursor).spec_pos() == end,
                Err(e) => r == Err::<Header, DnsError>(e),
            },
    {
        let Some(id) = cursor.read_u16_be() else {
            return Err(DnsError::ParseId);
        };
        let Some(flags) = cursor.read_u16_be() else {
            return Err(DnsError::ParseFlag);
        };
        let Some(num_questions) = cursor.read_u16_be() else {
            return Err(DnsError::ParseQuestionCount);
        };
        let Some(num_answers) = cursor.read_u16_be() else {
            return Err(DnsError::ParseAnswerCount);
        };
        let Some(num_authorities) = cursor.read_u16_be() else {
            return Err(DnsError::ParseAuthorityCount);
        };
        let Some(num_additionals) = cursor.read_u16_be() else {
            return Err(DnsError::ParseAdditionalCount);
        };
        Ok(Header { id, flags, num_questions, num_answers, num_authorities, num_additionals })
    }
}

} // verus!

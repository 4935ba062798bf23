//! One DNS question: a name, a record type, and a class, decoded strictly in
//! field order.

use crate::cursor::{spec_read_u16, Cursor};
use crate::errors::DnsError;
use crate::record::{spec_record_type_from, RecordType};
use crate::record_name::{spec_read_name, RecordName};
use vstd::prelude::*;

verus! {

/// One question of a DNS message.
#[derive(Debug)]
pub struct Question {
    /// The domain name of interest in the question.
    pub name: Vec<u8>,
    /// Type of the DNS question.
    pub q_type: RecordType,
    /// Class of the DNS question.
    pub q_class: u16,
}

/// The mathematical value of a question.
pub struct QuestionV {
    pub name: Seq<u8>,
    pub q_type: RecordType,
    pub q_class: u16,
}

impl View for Question {
    type V = QuestionV;

    open spec fn view(&self) -> QuestionV {
        QuestionV { name: self.name@, q_type: self.q_type, q_class: self.q_class }
    }
}

impl DeepView for Question {
    type V = QuestionV;

    open spec fn deep_view(&self) -> QuestionV {
        self.view()
    }
}

impl PartialEq for Question {
    fn eq(&self, other: &Self) -> (r: bool) {
        let r = self.name == other.name && self.q_type == other.q_type && self.q_class
            == other.q_class;
        proof {
            if r {
                assert(self.name@ =~= other.name@);
            } else if self@ == other@ {
                assert(self.name@ =~= other.name@);
                assert(false);
            }
        }
        r
    }
}

impl vstd::std_specs::cmp::PartialEqSpecImpl for Question {
    open spec fn obeys_eq_spec() -> bool {
        true
    }

    open spec fn eq_spec(&self, other: &Self) -> bool {
        self@ == other@
    }
}

/// The question at `pos`: a name, then a recognized record type, then a
/// class, each truncation reported as that field's own error.
pub open spec fn spec_read_question(data: Seq<u8>, pos: int) -> Result<(QuestionV, int), DnsError> {
    match spec_read_name(data, pos) {
        Err(e) => Err(e),
        Ok((name, p1)) => match spec_read_u16(data, p1) {
            None => Err(DnsError::ReadQuestionType),
            Some((tv, p2)) => match spec_record_type_from(tv) {
                None => Err(DnsError::UnrecognizedRecordType),
                Some(q_type) => match spec_read_u16(data, p2) {
                    None => Err(DnsError::ReadQuestionClass),
                    Some((q_class, p3)) => Ok((QuestionV { name, q_type, q_class }, p3)),
                },
            },
        },
    }
}

impl Question {
    /// Read a DNS question at the cursor. The cursor advances past the
    /// question on success; the buffer under it never changes.
    pub fn read_and_advance(cursor: &mut Cursor) -> (r: Result<Question, DnsError>)
        ensures
            final(cursor).spec_data() == old(cursor).spec_data(),
            match spec_read_question(old(cursor).spec_data(), old(cursor).spec_pos()) {
                Ok((q, end)) => {
                    &&& r is Ok
                    &&& r.unwrap()@ == q
                    &&& final(cursor).spec_pos() == end
                },
                Err(e) => r == Err::<Question, DnsError>(e),
            },
    {
        let name = match RecordName::read_and_advance(cursor) {
            Ok(n) => n,
            Err(e) => {
                return Err(e);
            },
        };
        let Some(parsed_type) = cursor.read_u16_be() else {
            return Err(DnsError::ReadQuestionType);
        };
        let Some(record_type) = RecordType::from(parsed_type) else {
            return Err(DnsError::UnrecognizedRecordType);
        };
        let Some(parsed_class) = cursor.read_u16_be() else {
            return Err(DnsError::ReadQuestionClass);
        };
        Ok(Question { name, q_type: record_type, q_class: parsed_class })
    }
}

} // verus!

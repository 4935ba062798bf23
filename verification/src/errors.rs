//! The error taxonomy for the resolver. Every failure anywhere in the library
//! is one of these kinds; the first failure aborts the whole operation and is
//! returned verbatim, and each kind maps one-to-one to a process exit code.

use vstd::prelude::*;

verus! {

/// Every way a DNS query, decode or resolution can fail.
#[derive(Debug, PartialEq, Eq, Structural, Clone, Copy)]
pub enum DnsError {
    // Header decode failures, one per field.
    ParseResponse,
    ParseId,
    ParseFlag,
    ParseQuestionCount,
    ParseAnswerCount,
    ParseAuthorityCount,
    ParseAdditionalCount,
    // Name / question / record decode failures, one per field.
    ReadByte,
    ReadLength,
    ReadQuestionType,
    ReadQuestionClass,
    ReadRecordType,
    ReadRecordClass,
    ReadRecordTTL,
    ReadRecordDataLength,
    ReadRecordData,
    // Record content failures.
    InvalidByteInName,
    UnrecognizedRecordType,
    // Transport failures.
    SocketBind,
    SocketSend,
    SocketRead,
    // Name decompression failures.
    DecompressReadByte,
    DecompressSkip,
    DecompressRestore,
    // Query serialization failure.
    QuerySerialization,
    // Resolution-level failure: the delegation chain made no further progress.
    UnknownDomainName,
    // Wire-format limits enforced on encode.
    LabelTooLong,
    NameTooLong,
    // A length byte whose value is reserved by the wire format (one of the
    // two top bits set, but not both).
    InvalidLabelLength,
    // A compression-pointer chain longer than the decoder is willing to follow.
    DecompressTooDeep,
    // A delegation chain longer than the resolver is willing to walk.
    DelegationLimitExceeded,
}

impl DnsError {
    /// The process exit code for this error. `0` is reserved for success, so
    /// every code here is at least `2`; distinct errors get distinct codes.
    pub fn exit_code(&self) -> (code: i32)
        ensures
            code == self.spec_exit_code(),
    {
        match self {
            Self::ParseResponse => 2,
            Self::ParseId => 3,
            Self::ParseFlag => 4,
            Self::ParseQuestionCount => 5,
            Self::ParseAnswerCount => 6,
            Self::ParseAuthorityCount => 7,
            Self::ParseAdditionalCount => 8,
            Self::ReadByte => 9,
            Self::ReadLength => 10,
            Self::ReadQuestionType => 11,
            Self::ReadQuestionClass => 12,
            Self::ReadRecordType => 13,
            Self::ReadRecordClass => 14,
            Self::ReadRecordTTL => 15,
            Self::ReadRecordDataLength => 16,
            Self::ReadRecordData => 17,
            Self::SocketBind => 18,
            Self::SocketSend => 19,
            Self::SocketRead => 20,
            Self::DecompressReadByte => 21,
            Self::DecompressSkip => 22,
            Self::DecompressRestore => 23,
            Self::QuerySerialization => 24,
            Self::UnrecognizedRecordType => 25,
            Self::InvalidByteInName => 26,
            Self::UnknownDomainName => 27,
            Self::LabelTooLong => 28,
            Self::NameTooLong => 29,
            Self::InvalidLabelLength => 30,
            Self::DecompressTooDeep => 31,
            Self::DelegationLimitExceeded => 32,
        }
    }

    /// The exit code of each error kind, as a mathematical map.
    pub open spec fn spec_exit_code(&self) -> i32 {
        match self {
            Self::ParseResponse => 2,
            Self::ParseId => 3,
            Self::ParseFlag => 4,
            Self::ParseQuestionCount => 5,
            Self::ParseAnswerCount => 6,
            Self::ParseAuthorityCount => 7,
            Self::ParseAdditionalCount => 8,
            Self::ReadByte => 9,
            Self::ReadLength => 10,
            Self::ReadQuestionType => 11,
            Self::ReadQuestionClass => 12,
            Self::ReadRecordType => 13,
            Self::ReadRecordClass => 14,
            Self::ReadRecordTTL => 15,
            Self::ReadRecordDataLength => 16,
            Self::ReadRecordData => 17,
            Self::SocketBind => 18,
            Self::SocketSend => 19,
            Self::SocketRead => 20,
            Self::DecompressReadByte => 21,
            Self::DecompressSkip => 22,
            Self::DecompressRestore => 23,
            Self::QuerySerialization => 24,
            Self::UnrecognizedRecordType => 25,
            Self::InvalidByteInName => 26,
            Self::UnknownDomainName => 27,
            Self::LabelTooLong => 28,
            Self::NameTooLong => 29,
            Self::InvalidLabelLength => 30,
            Self::DecompressTooDeep => 31,
            Self::DelegationLimitExceeded => 32,
        }
    }
}

/// The error kinds that decoding a message can produce: per-field header,
/// question and record failures, name-codec failures, and the record-type
/// recognition failure. Transport, encoding and resolution-level failures
/// are not among them: a decoder never reports those.
pub open spec fn is_decode_error(e: DnsError) -> bool {
    ||| e == DnsError::ParseId
    ||| e == DnsError::ParseFlag
    ||| e == DnsError::ParseQuestionCount
    ||| e == DnsError::ParseAnswerCount
    ||| e == DnsError::ParseAuthorityCount
    ||| e == DnsError::ParseAdditionalCount
    ||| e == DnsError::ReadByte
    ||| e == DnsError::ReadLength
    ||| e == DnsError::ReadQuestionType
    ||| e == DnsError::ReadQuestionClass
    ||| e == DnsError::ReadRecordType
    ||| e == DnsError::ReadRecordClass
    ||| e == DnsError::ReadRecordTTL
    ||| e == DnsError::ReadRecordDataLength
    ||| e == DnsError::ReadRecordData
    ||| e == DnsError::InvalidByteInName
    ||| e == DnsError::UnrecognizedRecordType
    ||| e == DnsError::DecompressReadByte
    ||| e == DnsError::DecompressSkip
    ||| e == DnsError::DecompressTooDeep
    ||| e == DnsError::InvalidLabelLength
}

impl DnsError {
    /// A one-line description of the error, for diagnostics. (`Display`
    /// cannot be implemented here, so callers that print an error use this
    /// method instead.)
    pub fn description(&self) -> (text: &'static str)
        ensures
            text@ == self.spec_description(),
    {
        match self {
            Self::ParseResponse => "Could not parse DNS response",
            Self::ParseId => "Could not parse ID in header",
            Self::ParseFlag => "Could not parse flag in header",
            Self::ParseQuestionCount => "Could not parse number of questions",
            Self::ParseAnswerCount => "Could not parse number of answers",
            Self::ParseAuthorityCount => "Could not parse number of authorities",
            Self::ParseAdditionalCount => "Could not parse number of additionals",
            Self::ReadByte => "Could not read the next byte",
            Self::ReadLength => "Could not read length in string buffer",
            Self::ReadQuestionType => "Could not read type in question",
            Self::ReadQuestionClass => "Could not read class in question",
            Self::ReadRecordType => "Could not read type in record",
            Self::ReadRecordClass => "Could not read class in record",
            Self::ReadRecordTTL => "Could not read TTL in record",
            Self::ReadRecordDataLength => "Could not read length of data in record",
            Self::ReadRecordData => "Could not read data in record",
            Self::SocketBind => "Could not bind to socket",
            Self::SocketSend => "Could not send data through socket",
            Self::SocketRead => "Could not read data from socket",
            Self::DecompressReadByte => "Could not read additional byte to read skip offset",
            Self::DecompressSkip => "Skip failed, most likely was out of bounds",
            Self::DecompressRestore => "Could not restore cursor to previous position",
            Self::QuerySerialization => "Could not serialize DNS query",
            Self::UnrecognizedRecordType => "Did not recognize the record type value",
            Self::InvalidByteInName => "Found invalid byte in record name",
            Self::UnknownDomainName => "No nameservers are aware of the given domain name",
            Self::LabelTooLong => "A name label exceeds 63 bytes",
            Self::NameTooLong => "The encoded name exceeds 255 bytes",
            Self::InvalidLabelLength => "A length byte uses a reserved flag combination",
            Self::DecompressTooDeep => "The compression pointer chain is too long",
            Self::DelegationLimitExceeded => "The delegation chain made no progress within its limit",
        }
    }

    /// The description of each error kind, as a mathematical map.
    pub open spec fn spec_description(&self) -> Seq<char> {
        match self {
            Self::ParseResponse => "Could not parse DNS response"@,
            Self::ParseId => "Could not parse ID in header"@,
            Self::ParseFlag => "Could not parse flag in header"@,
            Self::ParseQuestionCount => "Could not parse number of questions"@,
            Self::ParseAnswerCount => "Could not parse number of answers"@,
            Self::ParseAuthorityCount => "Could not parse number of authorities"@,
            Self::ParseAdditionalCount => "Could not parse number of additionals"@,
            Self::ReadByte => "Could not read the next byte"@,
            Self::ReadLength => "Could not read length in string buffer"@,
            Self::ReadQuestionType => "Could not read type in question"@,
            Self::ReadQuestionClass => "Could not read class in question"@,
            Self::ReadRecordType => "Could not read type in record"@,
            Self::ReadRecordClass => "Could not read class in record"@,
            Self::ReadRecordTTL => "Could not read TTL in record"@,
            Self::ReadRecordDataLength => "Could not read length of data in record"@,
            Self::ReadRecordData => "Could not read data in record"@,
            Self::SocketBind => "Could not bind to socket"@,
            Self::SocketSend => "Could not send data through socket"@,
            Self::SocketRead => "Could not read data from socket"@,
            Self::DecompressReadByte => "Could not read additional byte to read skip offset"@,
            Self::DecompressSkip => "Skip failed, most likely was out of bounds"@,
            Self::DecompressRestore => "Could not restore cursor to previous position"@,
            Self::QuerySerialization => "Could not serialize DNS query"@,
            Self::UnrecognizedRecordType => "Did not recognize the record type value"@,
            Self::InvalidByteInName => "Found invalid byte in record name"@,
            Self::UnknownDomainName => "No nameservers are aware of the given domain name"@,
            Self::LabelTooLong => "A name label exceeds 63 bytes"@,
            Self::NameTooLong => "The encoded name exceeds 255 bytes"@,
            Self::InvalidLabelLength => "A length byte uses a reserved flag combination"@,
            Self::DecompressTooDeep => "The compression pointer chain is too long"@,
            Self::DelegationLimitExceeded => "The delegation chain made no progress within its limit"@,
        }
    }
}

/// Exit codes identify the error: no two error kinds share a code, and no
/// code collides with the `0` of success.
pub proof fn lemma_exit_codes_distinct(e1: DnsError, e2: DnsError)
    ensures
        e1.spec_exit_code() >= 2,
        e1.spec_exit_code() == e2.spec_exit_code() ==> e1 == e2,
{
}

} // verus!

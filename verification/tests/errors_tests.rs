use toy_dns_lib::errors::DnsError;

/// Every error kind maps to its own exit code, all distinct and none
/// colliding with the 0 of success.
#[test]
fn test_exit_codes_distinct() {
    let all = [
        DnsError::ParseResponse,
        DnsError::ParseId,
        DnsError::ParseFlag,
        DnsError::ParseQuestionCount,
        DnsError::ParseAnswerCount,
        DnsError::ParseAuthorityCount,
        DnsError::ParseAdditionalCount,
        DnsError::ReadByte,
        DnsError::ReadLength,
        DnsError::ReadQuestionType,
        DnsError::ReadQuestionClass,
        DnsError::ReadRecordType,
        DnsError::ReadRecordClass,
        DnsError::ReadRecordTTL,
        DnsError::ReadRecordDataLength,
        DnsError::ReadRecordData,
        DnsError::InvalidByteInName,
        DnsError::UnrecognizedRecordType,
        DnsError::SocketBind,
        DnsError::SocketSend,
        DnsError::SocketRead,
        DnsError::DecompressReadByte,
        DnsError::DecompressSkip,
        DnsError::DecompressRestore,
        DnsError::QuerySerialization,
        DnsError::UnknownDomainName,
        DnsError::LabelTooLong,
        DnsError::NameTooLong,
        DnsError::InvalidLabelLength,
        DnsError::DecompressTooDeep,
        DnsError::DelegationLimitExceeded,
    ];
    let mut seen: Vec<i32> = Vec::new();
    for e in all {
        let code = e.exit_code();
        assert!(code >= 2);
        assert!(!seen.contains(&code));
        seen.push(code);
    }
}

/// A few exit codes callers key off.
#[test]
fn test_exit_code_values() {
    assert_eq!(DnsError::ParseId.exit_code(), 3);
    assert_eq!(DnsError::SocketBind.exit_code(), 18);
    assert_eq!(DnsError::QuerySerialization.exit_code(), 24);
    assert_eq!(DnsError::InvalidByteInName.exit_code(), 26);
    assert_eq!(DnsError::UnknownDomainName.exit_code(), 27);
}

/// Each error carries its own one-line description.
#[test]
fn test_error_descriptions() {
    assert_eq!(
        DnsError::UnknownDomainName.description(),
        "No nameservers are aware of the given domain name"
    );
    assert_eq!(
        DnsError::QuerySerialization.description(),
        "Could not serialize DNS query"
    );
    assert_eq!(
        DnsError::DecompressSkip.description(),
        "Skip failed, most likely was out of bounds"
    );
}

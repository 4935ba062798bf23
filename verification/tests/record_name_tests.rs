use toy_dns_lib::cursor::Cursor;
use toy_dns_lib::errors::DnsError;
use toy_dns_lib::record_name::RecordName;

/// Validate decoding of an uncompressed DNS name.
#[test]
fn test_decode_uncompressed_name() -> Result<(), DnsError> {
    // Bytes that represent www.example.com
    let expected_name = "www.example.com";

    // This byte buffer reflects the part of a DNS message that contains an
    // uncompressed name. Each host name part is preceded by a length marker.
    // Multiple 0s are appended at the end so that we can validate that those
    // bytes remain "unread".
    let message_bytes = [
        3, 119, 119, 119, 7, 101, 120, 97, 109, 112, 108, 101, 3, 99, 111, 109, 0, 0, 0, 0, 0, 0,
    ];

    let mut cursor = Cursor::new(message_bytes.as_slice());

    assert_eq!(
        RecordName::read_and_advance(&mut cursor)?,
        expected_name.as_bytes()
    );
    assert_eq!(cursor.position(), 17);
    Ok(())
}

/// Validate decoding of an uncompressed DNS name which is missing data
#[test]
fn test_decode_uncompressed_name_with_missing_data() {
    let message_bytes = [3, 119];
    let mut cursor = Cursor::new(message_bytes.as_slice());
    assert!(RecordName::read_and_advance(&mut cursor).is_err())
}

/// Validate decoding of an uncompressed DNS name which holds invalid UTF-8
#[test]
fn test_decode_uncompressed_name_with_invalid_utf8() {
    let message_bytes = [1, 0x80];
    let mut cursor = Cursor::new(message_bytes.as_slice());
    assert!(RecordName::read_and_advance(&mut cursor).is_err())
}

// This example buffer comes from RFC 1035, section 4.1.4: the name
// F.ISI.ARPA is written in full at offset 20, the name FOO.F.ISI.ARPA at
// offset 40 as one label followed by a pointer to offset 20, and a bare
// pointer to offset 26 (the ARPA label) stands at offset 64.
const RFC_1035_4_1_4_EXAMPLE: [u8; 67] = [
    0, 0, 0, 0, 0, 0, 0, 0, 0, 0, 0, 0, 0, 0, 0, 0, 0, 0, 0, 0, // Padding
    1, b'F', 3, b'I', b'S', b'I', 4, b'A', b'R', b'P', b'A', 0, // 20 - 31
    0, 0, 0, 0, 0, 0, 0, 0, 3, // Padding
    b'F', b'O', b'O', 0b1100_0000, 20, // 40 - 45
    0, 0, 0, 0, 0, 0, 0, 0, 0, 0, 0, 0, 0, 0, 0, 0, 0, 0, // Padding
    0b1100_0000, 26, 0, // 64 - 66
];

/// Validate decoding of a record name which only contains a pointer.
#[test]
fn test_decode_compressed_name_only_pointer() -> Result<(), DnsError> {
    let expected_name = "F.ISI.ARPA";
    let mut cursor = Cursor::new(RFC_1035_4_1_4_EXAMPLE.as_slice());
    cursor.set_position(20);

    assert_eq!(
        RecordName::read_and_advance(&mut cursor)?,
        expected_name.as_bytes()
    );
    Ok(())
}

/// Validate decoding of a record name which contains a pointer to middle of a
/// previous name.
#[test]
fn test_decode_compressed_name_partial_pointer() -> Result<(), DnsError> {
    let expected_name = "ARPA";
    let mut cursor = Cursor::new(RFC_1035_4_1_4_EXAMPLE.as_slice());
    cursor.set_position(64);

    assert_eq!(
        RecordName::read_and_advance(&mut cursor)?,
        expected_name.as_bytes()
    );
    Ok(())
}

/// Validate decoding of a record name which begins with a normal part but
/// ends with a pointer.
#[test]
fn test_decode_compressed_name_after_normal_part() -> Result<(), DnsError> {
    let expected_name = "FOO.F.ISI.ARPA";
    let mut cursor = Cursor::new(RFC_1035_4_1_4_EXAMPLE.as_slice());
    cursor.set_position(40);

    assert_eq!(
        RecordName::read_and_advance(&mut cursor)?,
        expected_name.as_bytes()
    );
    Ok(())
}

/// Validate encoding of a record name
#[test]
fn test_encoding_record_name() -> Result<(), DnsError> {
    let name_to_encode = RecordName {
        name: "toy.dns.project",
    };

    assert_eq!(
        name_to_encode.encode()?,
        [
            3, b't', b'o', b'y', 3, b'd', b'n', b's', 7, b'p', b'r', b'o', b'j', b'e', b'c', b't',
            0
        ]
    );

    Ok(())
}

/// Validate encoding of an invalid record name
#[test]
fn test_encoding_invalid_record_name() {
    let invalid_name = RecordName { name: "üëç" };
    assert!(invalid_name.encode().is_err());
}

/// Encoding then decoding an ASCII name recovers the original text.
#[test]
fn test_encode_decode_round_trip() {
    for name in ["example.com", "a.b.c.d", "www.example.com", "x"] {
        let encoded = RecordName { name }.encode().unwrap();
        let mut cursor = Cursor::new(encoded.as_slice());
        let decoded = RecordName::read_and_advance(&mut cursor).unwrap();
        assert_eq!(decoded, name.as_bytes());
        assert_eq!(cursor.position(), encoded.len());
    }
}

/// An empty name encodes to just the terminator; empty labels are skipped.
#[test]
fn test_encoding_empty_labels() {
    assert_eq!(RecordName { name: "" }.encode().unwrap(), [0]);
    assert_eq!(
        RecordName { name: "a..b" }.encode().unwrap(),
        [1, b'a', 1, b'b', 0]
    );
}

/// A label over 63 bytes is rejected rather than encoded malformed.
#[test]
fn test_encoding_label_too_long() {
    let long_label = "a".repeat(64);
    assert_eq!(
        RecordName { name: &long_label }.encode(),
        Err(DnsError::LabelTooLong)
    );
    let max_label = "a".repeat(63);
    assert!(RecordName { name: &max_label }.encode().is_ok());
}

/// A name whose encoding would exceed 255 bytes is rejected.
#[test]
fn test_encoding_name_too_long() {
    let part = "a".repeat(63);
    let long_name = format!("{}.{}.{}.{}", part, part, part, part);
    assert_eq!(
        RecordName { name: &long_name }.encode(),
        Err(DnsError::NameTooLong)
    );
}

/// A length byte with a single top bit set is reserved and rejected.
#[test]
fn test_decode_reserved_length_byte() {
    let message_bytes = [0x40, 0, 0, 0];
    let mut cursor = Cursor::new(message_bytes.as_slice());
    assert_eq!(
        RecordName::read_and_advance(&mut cursor),
        Err(DnsError::InvalidLabelLength)
    );
}

/// A pointer that chases itself fails closed instead of looping.
#[test]
fn test_decode_pointer_cycle() {
    let message_bytes = [0xC0, 0];
    let mut cursor = Cursor::new(message_bytes.as_slice());
    assert_eq!(
        RecordName::read_and_advance(&mut cursor),
        Err(DnsError::DecompressTooDeep)
    );
}

/// A pointer whose offset lies beyond the message is a seek error.
#[test]
fn test_decode_pointer_out_of_range() {
    let message_bytes = [0xC0, 200];
    let mut cursor = Cursor::new(message_bytes.as_slice());
    assert_eq!(
        RecordName::read_and_advance(&mut cursor),
        Err(DnsError::DecompressSkip)
    );
}

/// A pointer cut off after its first byte is its own error.
#[test]
fn test_decode_pointer_missing_byte() {
    let message_bytes = [0xC0];
    let mut cursor = Cursor::new(message_bytes.as_slice());
    assert_eq!(
        RecordName::read_and_advance(&mut cursor),
        Err(DnsError::DecompressReadByte)
    );
}

/// Decoding at the very end of a buffer cannot even read a length byte.
#[test]
fn test_decode_missing_length_byte() {
    let message_bytes = [3, b'w'];
    let mut cursor = Cursor::new(message_bytes.as_slice());
    assert_eq!(
        RecordName::read_and_advance(&mut cursor),
        Err(DnsError::ReadByte)
    );
    let empty: [u8; 0] = [];
    let mut cursor = Cursor::new(empty.as_slice());
    assert_eq!(
        RecordName::read_and_advance(&mut cursor),
        Err(DnsError::ReadLength)
    );
}

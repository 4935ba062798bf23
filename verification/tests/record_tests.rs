use toy_dns_lib::cursor::Cursor;
use toy_dns_lib::errors::DnsError;
use toy_dns_lib::record::{DnsRecordGetters, Record, RecordType};

/// Validate serialization of an IP address from a record
#[test]
fn record_test_query_serialization() {
    // For the purposes of this test, none of the other fields in Record matter
    let record = Record {
        data: vec![93, 184, 216, 34],
        ..Default::default()
    };

    assert_eq!(record.ip_address(), "93.184.216.34");
}

#[test]
fn test_parsing_valid_record() {
    // A DNS packet that answers a query for www.example.com
    let data = [
        // Header                                  Question
        // ID    Flags     Qs    Answ  Auth  Addl     www               example
        204, 71, 129, 128, 0, 1, 0, 1, 0, 0, 0, 0, 3, 119, 119, 119, 7, 101, 120, 97, 109, 112,
        //                                        Answer
        //           com              Type  Class Ptr      Type  Class TTL            Len   Data
        108, 101, 3, 99, 111, 109, 0, 0, 1, 0, 1, 192, 12, 0, 1, 0, 1, 0, 0, 29, 234, 0, 4, 93,
        184, 216, 34,
    ];

    let mut cursor = Cursor::new(data.as_slice());
    cursor.set_position(33);

    let result = Record::read_and_advance(&mut cursor);

    assert_eq!(
        result.unwrap_or_default(),
        Record {
            name: "www.example.com".bytes().collect(),
            r_type: RecordType::A,
            r_class: 1,
            ttl: 29 << 8 | 234,
            data: vec![93, 184, 216, 34]
        }
    )
}

/// Validate record parsing can handle a buffer too small to hold a record.
#[test]
fn test_parsing_incomplete_record_buffer() {
    // This buffer is too small to ever contain a valid record
    let data = [0, 0, 0, 0, 0, 0, 0, 0];
    let mut cursor = Cursor::new(data.as_slice());
    let result = Record::read_and_advance(&mut cursor);
    assert!(result.is_err())
}

/// Validate proper handling of records which claim to have more bytes in its
/// data section than it actually does.
#[test]
fn test_parsing_incomplete_record_data() {
    // Notice that the "Len" at the end says 6 but there are only 4 bytes
    // under "Data". This should result in an error.
    let data = [
        // Header                                  Question
        // ID    Flags     Qs    Answ  Auth  Addl     www               example
        204, 71, 129, 128, 0, 1, 0, 1, 0, 0, 0, 0, 3, 119, 119, 119, 7, 101, 120, 97, 109, 112,
        //                                        Answer
        //           com              Type  Class Ptr      Type  Class TTL            Len   Data
        108, 101, 3, 99, 111, 109, 0, 0, 1, 0, 1, 192, 12, 0, 1, 0, 1, 0, 0, 29, 234, 0, 6, 93,
        184, 216, 34,
    ];
    let mut cursor = Cursor::new(data.as_slice());
    cursor.set_position(33);

    let result = Record::read_and_advance(&mut cursor);
    assert_eq!(result, Err(DnsError::ReadRecordData));
}

/// Validate that get_first_a_record() returns the correct record when it's
/// the first in the array.
#[test]
fn test_get_first_a_record_when_first_of_many() {
    let record_1 = Record {
        r_type: RecordType::A,
        r_class: 1,
        ..Default::default()
    };

    let record_2 = Record {
        r_type: RecordType::NS,
        r_class: 2,
        ..Default::default()
    };

    let record_3 = Record {
        r_type: RecordType::NS,
        r_class: 3,
        ..Default::default()
    };

    let records = vec![record_1.clone(), record_2, record_3];
    assert_eq!(records.get_first_a_record(), Some(&record_1));
}

/// Validate that get_first_a_record() returns the correct record when it's in
/// the middle of an array.
#[test]
fn test_get_first_a_record_when_middle_of_many() {
    let record_1 = Record {
        r_type: RecordType::A,
        r_class: 1,
        ..Default::default()
    };

    let record_2 = Record {
        r_type: RecordType::NS,
        r_class: 2,
        ..Default::default()
    };

    let record_3 = Record {
        r_type: RecordType::NS,
        r_class: 3,
        ..Default::default()
    };

    let records = vec![record_2, record_1.clone(), record_3];
    assert_eq!(records.get_first_a_record(), Some(&record_1));
}

/// Validate that get_first_a_record() returns the correct record when it's
/// the last in the array.
#[test]
fn test_get_first_a_record_when_last_of_many() {
    let record_1 = Record {
        r_type: RecordType::A,
        r_class: 1,
        ..Default::default()
    };

    let record_2 = Record {
        r_type: RecordType::NS,
        r_class: 2,
        ..Default::default()
    };

    let record_3 = Record {
        r_type: RecordType::NS,
        r_class: 3,
        ..Default::default()
    };

    let records = vec![record_2, record_3, record_1.clone()];
    assert_eq!(records.get_first_a_record(), Some(&record_1));
}

/// Validate that get_first_ns_record() returns the correct record when it's
/// the first in the array.
#[test]
fn test_get_first_ns_record_when_first_of_many() {
    let record_1 = Record {
        r_type: RecordType::NS,
        r_class: 1,
        ..Default::default()
    };

    let record_2 = Record {
        r_type: RecordType::A,
        r_class: 2,
        ..Default::default()
    };

    let record_3 = Record {
        r_type: RecordType::A,
        r_class: 3,
        ..Default::default()
    };

    let records = vec![record_1.clone(), record_2, record_3];
    assert_eq!(records.get_first_ns_record(), Some(&record_1));
}

/// Validate that get_first_ns_record() returns the correct record when it's
/// in the middle of an array.
#[test]
fn test_get_first_ns_record_when_middle_of_many() {
    let record_1 = Record {
        r_type: RecordType::NS,
        r_class: 1,
        ..Default::default()
    };

    let record_2 = Record {
        r_type: RecordType::A,
        r_class: 2,
        ..Default::default()
    };

    let record_3 = Record {
        r_type: RecordType::A,
        r_class: 3,
        ..Default::default()
    };

    let records = vec![record_2, record_1.clone(), record_3];
    assert_eq!(records.get_first_ns_record(), Some(&record_1));
}

/// Validate that get_first_ns_record() returns the correct record when it's
/// the last in the array.
#[test]
fn test_get_first_ns_record_when_last_of_many() {
    let record_1 = Record {
        r_type: RecordType::NS,
        r_class: 1,
        ..Default::default()
    };

    let record_2 = Record {
        r_type: RecordType::A,
        r_class: 2,
        ..Default::default()
    };

    let record_3 = Record {
        r_type: RecordType::A,
        r_class: 3,
        ..Default::default()
    };

    let records = vec![record_2, record_3, record_1.clone()];
    assert_eq!(records.get_first_ns_record(), Some(&record_1));
}

/// The record-type mapping is total and closed: exactly the wire values
/// 0, 1, 2 and 28 decode, and each decodes back to its own value.
#[test]
fn test_record_type_closed_set() {
    assert_eq!(RecordType::from(0), Some(RecordType::Invalid));
    assert_eq!(RecordType::from(1), Some(RecordType::A));
    assert_eq!(RecordType::from(2), Some(RecordType::NS));
    assert_eq!(RecordType::from(28), Some(RecordType::AAAA));
    for v in [3u16, 5, 15, 16, 27, 29, 44, 255, 256, 65535] {
        assert_eq!(RecordType::from(v), None);
    }
    for t in [
        RecordType::Invalid,
        RecordType::A,
        RecordType::NS,
        RecordType::AAAA,
    ] {
        assert_eq!(RecordType::from(RecordType::value(t)), Some(t));
    }
}

/// Each fixed record field's truncation is reported as that field's own
/// error, and an unrecognized type value is its own error.
#[test]
fn test_parsing_record_field_errors() {
    // name "w", type A, class 1, ttl 0, data length 0
    let data = [1u8, 119, 0, 0, 1, 0, 1, 0, 0, 0, 0, 0, 0];
    let cases: [(usize, DnsError); 5] = [
        (3, DnsError::ReadRecordType),
        (6, DnsError::ReadRecordClass),
        (8, DnsError::ReadRecordTTL),
        (11, DnsError::ReadRecordDataLength),
        (12, DnsError::ReadRecordDataLength),
    ];
    for (len, expected) in cases {
        let mut cursor = Cursor::new(&data[..len]);
        assert_eq!(Record::read_and_advance(&mut cursor), Err(expected));
    }
    let unknown_type = [1u8, 119, 0, 0, 44, 0, 1, 0, 0, 0, 0, 0, 0];
    let mut cursor = Cursor::new(unknown_type.as_slice());
    assert_eq!(
        Record::read_and_advance(&mut cursor),
        Err(DnsError::UnrecognizedRecordType)
    );
}

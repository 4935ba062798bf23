use toy_dns_lib::errors::DnsError;
use toy_dns_lib::header::Header;
use toy_dns_lib::packet::Packet;
use toy_dns_lib::question::Question;
use toy_dns_lib::record::{Record, RecordType};

/// Validate parsing of a simple, valid packet.
#[test]
fn test_parsing_simple_packet() {
    // A DNS packet that answers a query for www.example.com
    let data = [
        // Header                                  Question
        // ID    Flags     Qs    Answ  Auth  Addl     www               example
        204, 71, 129, 128, 0, 1, 0, 1, 0, 0, 0, 0, 3, 119, 119, 119, 7, 101, 120, 97, 109, 112,
        //                                        Answer
        //           com              Type  Class Ptr      Type  Class TTL            Len   Data
        108, 101, 3, 99, 111, 109, 0, 0, 1, 0, 1, 192, 12, 0, 1, 0, 1, 0, 0, 29, 234, 0, 4, 93,
        184, 216, 34,
    ];

    let result = Packet::parse(data.as_slice());
    assert!(result.is_ok());
    let packet = result.unwrap();

    assert_eq!(
        packet.header,
        Header {
            id: 204 << 8 | 71,
            flags: 129 << 8 | 128,
            num_questions: 1,
            num_answers: 1,
            num_authorities: 0,
            num_additionals: 0,
        }
    );

    let domain_name: Vec<u8> = "www.example.com".bytes().collect();

    assert_eq!(
        packet.questions,
        vec![Question {
            name: domain_name.clone(),
            q_type: RecordType::A,
            q_class: 1,
        }]
    );

    assert_eq!(
        packet.answers,
        vec![Record {
            name: domain_name,
            r_type: RecordType::A,
            r_class: 1,
            ttl: 29 << 8 | 234,
            data: vec![93, 184, 216, 34]
        }]
    )
}

/// Validate parsing of a packet with only a header and all counts zero.
#[test]
fn test_parsing_packet_with_header() {
    //                    ID       Flags     Qs    Answ  Auth  Addl
    let data = [204, 71, 129, 128, 0, 0, 0, 0, 0, 0, 0, 0];
    assert!(Packet::parse(data.as_slice()).is_ok())
}

/// Validate parsing a packet with a header which expects questions and
/// answers which are missing.
#[test]
fn test_parsing_packet_with_header_and_missing_data_should_fail() {
    // The header says there is 1 question and 1 answer but both are missing.
    //                    ID       Flags     Qs    Answ  Auth  Addl
    let data = [204, 71, 129, 128, 0, 1, 0, 1, 0, 0, 0, 0];
    assert!(Packet::parse(data.as_slice()).is_err())
}

/// Validate parsing of a packet with missing data fails.
#[test]
fn test_parsing_packet_with_missing_data_should_fail() {
    // The header says there is 1 question and 1 answer but the answer is missing.
    let data = [
        //ID     Flags     Qs    Answ  Auth  Addl  www               example
        204, 71, 129, 128, 0, 1, 0, 1, 0, 0, 0, 0, 3, 119, 119, 119, 7, 101, 120, 97, 109, 112,
        //        com
        108, 101, 3, 99, 111, 109, 0,
    ];
    assert!(Packet::parse(data.as_slice()).is_err())
}

/// Validate parsing of a packet with 0 bytes fails.
#[test]
fn test_parsing_packet_with_no_data_should_fail() {
    let empty: [u8; 0] = [];
    assert!(Packet::parse(empty.as_slice()).is_err())
}

/// A header-only packet with all counts zero parses to three empty record
/// sections and no questions.
#[test]
fn test_parsing_header_only_packet_sections_empty() {
    let data = [12, 34, 0, 0, 0, 0, 0, 0, 0, 0, 0, 0];
    let packet = Packet::parse(data.as_slice()).unwrap();
    assert!(packet.questions.is_empty());
    assert!(packet.answers.is_empty());
    assert!(packet.authorities.is_empty());
    assert!(packet.additionals.is_empty());
}

/// Parsing is atomic: a packet whose last declared record is truncated fails
/// as a whole, with the error of the failing field.
#[test]
fn test_parsing_truncated_last_record_fails_whole_parse() {
    let data = [
        // Header: 0 questions, 2 answers.
        0, 1, 0, 0, 0, 0, 0, 2, 0, 0, 0, 0, //
        // First answer: name "a", type A, class 1, ttl 0, 1 data byte.
        1, b'a', 0, 0, 1, 0, 1, 0, 0, 0, 0, 0, 1, 9, //
        // Second answer: declared data length 2, only 1 byte present.
        1, b'b', 0, 0, 1, 0, 1, 0, 0, 0, 0, 0, 2, 9,
    ];
    match Packet::parse(data.as_slice()) {
        Err(e) => assert_eq!(e, DnsError::ReadRecordData),
        Ok(_) => panic!("a truncated record must fail the whole parse"),
    }
}

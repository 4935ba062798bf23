use toy_dns_lib::cursor::Cursor;
use toy_dns_lib::errors::DnsError;
use toy_dns_lib::question::Question;
use toy_dns_lib::record::RecordType;

/// Validate parsing of a valid question
#[test]
fn test_parsing_valid_question() {
    let data = [
        // www.example.com                                                           Type  Class
        3u8, 119, 119, 119, 7, 101, 120, 97, 109, 112, 108, 101, 3, 99, 111, 109, 0, 0, 1, 0, 1,
    ];

    let domain_name: Vec<u8> = "www.example.com".bytes().collect();
    let expected = Question {
        name: domain_name,
        q_type: RecordType::A,
        q_class: 1,
    };

    let mut cursor = Cursor::new(data.as_slice());
    assert_eq!(Question::read_and_advance(&mut cursor).unwrap(), expected);
}

/// Validate parsing of a question with an unrecognized record type value.
#[test]
fn test_parsing_valid_question_invalid_record_type() {
    let data = [
        // www.example.com                                                           Type  Class
        3u8, 119, 119, 119, 7, 101, 120, 97, 109, 112, 108, 101, 3, 99, 111, 109, 0, 0, 44, 0, 1,
    ];

    let mut cursor = Cursor::new(data.as_slice());
    assert!(Question::read_and_advance(&mut cursor).is_err());
}

/// Validate proper handling of a buffer too small to hold a question.
#[test]
fn test_parsing_incomplete_question() {
    // Type and class are missing.
    let data = [
        3u8, 119, 119, 119, 7, 101, 120, 97, 109, 112, 108, 101, 3, 99, 111, 109, 0,
    ];
    let mut cursor = Cursor::new(data.as_slice());
    assert!(Question::read_and_advance(&mut cursor).is_err());
}

/// Each question field's truncation is reported as that field's own error.
#[test]
fn test_parsing_question_field_errors() {
    let data = [1u8, 119, 0, 0, 1, 0, 1];
    let mut cursor = Cursor::new(&data[..3]);
    assert_eq!(
        Question::read_and_advance(&mut cursor),
        Err(DnsError::ReadQuestionType)
    );
    let mut cursor = Cursor::new(&data[..5]);
    assert_eq!(
        Question::read_and_advance(&mut cursor),
        Err(DnsError::ReadQuestionClass)
    );
    let mut cursor = Cursor::new(&data[..4]);
    assert_eq!(
        Question::read_and_advance(&mut cursor),
        Err(DnsError::ReadQuestionType)
    );
}

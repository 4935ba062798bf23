use toy_dns_lib::errors::DnsError;
use toy_dns_lib::socket::{MockData, MockKey, MockSocket, Socket};

fn key(query_bytes: &[u8], server_ip: &str) -> MockKey {
    MockKey {
        query_bytes: query_bytes.to_vec(),
        server_ip: server_ip.to_string(),
    }
}

/// Ensure MockSocket vendors the correct response
#[test]
fn test_mock_socket_send_and_receive_preconfigured_data() -> Result<(), DnsError> {
    let query_1 = [12u8, 34];
    let addr_1 = "1.2.3.4:0";
    let data_1 = vec![0xAB; 1024];

    let query_2 = [56u8, 78];
    let addr_2 = "5.6.7.8:0";
    let data_2 = vec![0xEF; 1024];

    let mut socket = MockSocket::bind("")?;

    let data = vec![
        (
            key(&query_1, addr_1),
            MockData {
                data: data_1.clone(),
            },
        ),
        (key(&query_2, addr_2), MockData { data: data_2 }),
    ];

    socket.register_response_data(data);

    assert!(socket.send(&query_1, addr_1).is_ok());

    let mut buf = vec![0u8; 1024];
    assert!(socket.recv_from(&mut buf).is_ok());

    assert_eq!(buf, data_1);

    Ok(())
}

/// Ensure MockSocket errors out when the sent data is not recognized.
#[test]
fn test_mock_socket_send_unrecognized_data() -> Result<(), DnsError> {
    let query_1 = [12u8, 34];
    let addr_1 = "1.2.3.4:0";
    let data_1 = vec![0xAB; 1024];

    let query_2 = [56u8, 78];
    let addr_2 = "5.6.7.8:0";

    let mut socket = MockSocket::bind("")?;

    socket.register_response_data(vec![(key(&query_1, addr_1), MockData { data: data_1 })]);

    // Because we didn't preconfigure the mock socket with query_2 and
    // addr_2, this should fail.
    assert!(socket.send(&query_2, addr_2).is_err());

    Ok(())
}

/// Ensure MockSocket errors out when the sent query is unrecognized even
/// though the server IP is.
#[test]
fn test_mock_socket_send_unrecognized_query() -> Result<(), DnsError> {
    let query_1 = [12u8, 34];
    let addr_1 = "1.2.3.4:0";
    let data_1 = vec![0xAB; 1024];

    let query_2 = [56u8, 78];

    let mut socket = MockSocket::bind("")?;

    socket.register_response_data(vec![(key(&query_1, addr_1), MockData { data: data_1 })]);

    assert!(socket.send(&query_2, addr_1).is_err());

    Ok(())
}

/// Ensure MockSocket errors out when the server IP is unrecognized even
/// though the query is.
#[test]
fn test_mock_socket_send_unrecognized_server_ip() -> Result<(), DnsError> {
    let query_1 = [12u8, 34];
    let addr_1 = "1.2.3.4:0";
    let data_1 = vec![0xAB; 1024];

    let addr_2 = "5.6.7.8:0";

    let mut socket = MockSocket::bind("")?;

    socket.register_response_data(vec![(key(&query_1, addr_1), MockData { data: data_1 })]);

    assert!(socket.send(&query_1, addr_2).is_err());

    Ok(())
}

/// If MockSocket is not preconfigured with responses, it should return an
/// error.
#[test]
fn test_mock_socket_receive_without_preconfiguring() -> Result<(), DnsError> {
    let socket = MockSocket::bind("")?;

    let mut buf = vec![0u8; 1024];
    match socket.recv_from(&mut buf) {
        Ok(_) => panic!("an unarmed mock socket must not serve data"),
        Err(e) => assert_eq!(e, DnsError::SocketRead),
    }

    Ok(())
}

/// On duplicate keys, the latest registered response wins, and a short
/// response leaves the rest of the buffer untouched.
#[test]
fn test_mock_socket_latest_duplicate_wins() -> Result<(), DnsError> {
    let query = [1u8, 2, 3];
    let addr = "9.9.9.9:53";

    let mut socket = MockSocket::bind("")?;
    socket.register_response_data(vec![
        (key(&query, addr), MockData { data: vec![7, 7] }),
        (key(&query, addr), MockData { data: vec![8, 8] }),
    ]);

    assert_eq!(socket.send(&query, addr), Ok(3));

    let mut buf = vec![5u8; 4];
    assert!(socket.recv_from(&mut buf).is_ok());
    assert_eq!(buf, vec![8, 8, 5, 5]);

    Ok(())
}

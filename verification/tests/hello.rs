use moproxy::encode::serialize_client_hello;
use moproxy::tls::{parse_client_hello, ClientHello, Hostname, ParseError};

fn host(name: &str) -> Hostname {
    Hostname::new(name.as_bytes().to_vec()).expect("valid host name")
}

/// A ClientHello for `example.com`, written out byte by byte.
fn example_hello() -> Vec<u8> {
    let mut v: Vec<u8> = vec![
        0x16, 0x03, 0x01, 0x00, 0x43, // record: handshake, TLS 1.0, 67 bytes
        0x01, 0x00, 0x00, 0x3f, // ClientHello, 63 bytes
        0x03, 0x03, // client version
    ];
    v.extend(std::iter::repeat(0xabu8).take(32)); // random
    v.extend_from_slice(&[0x00]); // session id
    v.extend_from_slice(&[0x00, 0x02, 0x13, 0x01]); // cipher suites
    v.extend_from_slice(&[0x01, 0x00]); // compression
    v.extend_from_slice(&[0x00, 0x14]); // extensions: 20 bytes
    v.extend_from_slice(&[0x00, 0x00, 0x00, 0x10, 0x00, 0x0e, 0x00, 0x00, 0x0b]);
    v.extend_from_slice(b"example.com");
    v
}

#[test]
fn parses_server_name_from_literal_hello() {
    let hello = parse_client_hello(&example_hello()).expect("a ClientHello");
    assert_eq!(hello.server_name, Some(host("example.com")));
    assert!(!hello.early_data);
}

#[test]
fn plain_http_is_no_client_hello() {
    let request = b"GET / HTTP/1.0\r\nHost: example.com\r\n\r\n";
    assert_eq!(request.len(), 37);
    assert_eq!(parse_client_hello(request), Err(ParseError));
}

#[test]
fn empty_prefix_is_no_client_hello() {
    assert_eq!(parse_client_hello(&[]), Err(ParseError));
}

#[test]
fn roundtrip_with_and_without_early_data() {
    for early_data in [false, true] {
        let hello = ClientHello { server_name: Some(host("example.com")), early_data };
        let bytes = serialize_client_hello(&hello).expect("short name");
        assert_eq!(bytes.len(), 52 + 20 + if early_data { 4 } else { 0 });
        assert_eq!(parse_client_hello(&bytes), Ok(hello));
    }
}

#[test]
fn serialized_bytes_are_exact_for_short_name() {
    let hello = ClientHello { server_name: Some(host("a")), early_data: true };
    let bytes = serialize_client_hello(&hello).expect("short name");
    let mut expected: Vec<u8> = vec![0x16, 0x03, 0x01, 0x00, 61, 0x01, 0x00, 0x00, 57, 0x03, 0x03];
    expected.extend(std::iter::repeat(0u8).take(32));
    expected.extend_from_slice(&[0, 0, 2, 0x13, 0x01, 1, 0, 0, 14]);
    expected.extend_from_slice(&[0, 0, 0, 6, 0, 4, 0, 0, 1, b'a']);
    expected.extend_from_slice(&[0, 42, 0, 0]);
    assert_eq!(bytes, expected);
}

#[test]
fn serialize_without_name_parses_to_none() {
    let hello = ClientHello { server_name: None, early_data: false };
    let bytes = serialize_client_hello(&hello).expect("no name");
    assert_eq!(bytes.len(), 52);
    assert_eq!(parse_client_hello(&bytes), Ok(hello));
}

#[test]
fn serialize_refuses_overlong_name() {
    let ok = Hostname::new(vec![b'a'; 65475]).expect("ascii");
    let too_long = Hostname::new(vec![b'a'; 65476]).expect("ascii");
    let fits = ClientHello { server_name: Some(ok), early_data: true };
    let bytes = serialize_client_hello(&fits).expect("longest name that fits");
    assert_eq!(parse_client_hello(&bytes), Ok(fits));
    assert_eq!(serialize_client_hello(&ClientHello { server_name: Some(too_long), early_data: false }), None);
}

#[test]
fn hostname_must_be_nonempty_ascii() {
    assert!(Hostname::new(Vec::new()).is_none());
    assert!(Hostname::new(vec![b'a', 0x80]).is_none());
    let name = Hostname::new(b"example.com".to_vec()).expect("valid");
    assert_eq!(name.as_bytes(), b"example.com");
    assert_eq!(name.len(), 11);
}

#[test]
fn record_version_below_tls10_is_refused() {
    let mut bytes = example_hello();
    bytes[2] = 0x00;
    assert_eq!(parse_client_hello(&bytes), Err(ParseError));
    bytes[2] = 0x03;
    assert!(parse_client_hello(&bytes).is_ok());
}

#[test]
fn other_content_type_is_refused() {
    let mut bytes = example_hello();
    bytes[0] = 0x17;
    assert_eq!(parse_client_hello(&bytes), Err(ParseError));
}

#[test]
fn other_handshake_type_is_refused() {
    let mut bytes = example_hello();
    bytes[5] = 0x02;
    assert_eq!(parse_client_hello(&bytes), Err(ParseError));
}

#[test]
fn every_truncation_is_refused() {
    let bytes = example_hello();
    for cut in 0..bytes.len() {
        assert_eq!(parse_client_hello(&bytes[..cut]), Err(ParseError), "cut at {}", cut);
    }
}

#[test]
fn trailing_bytes_after_the_record_are_left_alone() {
    let mut bytes = example_hello();
    bytes.extend_from_slice(&[0x17, 0x03, 0x03, 0x00, 0x01, 0xff]);
    let hello = parse_client_hello(&bytes).expect("a ClientHello");
    assert_eq!(hello.server_name, Some(host("example.com")));
}

#[test]
fn non_ascii_server_name_is_refused() {
    let mut bytes = example_hello();
    let last = bytes.len() - 1;
    bytes[last] = 0xe9;
    assert_eq!(parse_client_hello(&bytes), Err(ParseError));
}

#[test]
fn extension_running_past_the_block_is_refused() {
    let mut bytes = example_hello();
    // the server name extension claims one byte more than the block holds
    bytes[55] = 0x11;
    assert_eq!(parse_client_hello(&bytes), Err(ParseError));
}

#[test]
fn name_list_running_past_the_extension_is_refused() {
    let mut bytes = example_hello();
    bytes[57] = 0x0f;
    assert_eq!(parse_client_hello(&bytes), Err(ParseError));
}

#[test]
fn hello_without_extensions_has_no_name() {
    let mut v: Vec<u8> = vec![0x16, 0x03, 0x03, 0x00, 0x2d, 0x01, 0x00, 0x00, 0x29, 0x03, 0x03];
    v.extend(std::iter::repeat(7u8).take(32));
    v.extend_from_slice(&[0x00, 0x00, 0x02, 0x13, 0x01, 0x01, 0x00]);
    assert_eq!(v.len(), 50);
    assert_eq!(parse_client_hello(&v), Ok(ClientHello { server_name: None, early_data: false }));
}

#[test]
fn first_host_name_wins_and_other_entries_are_skipped() {
    let mut v: Vec<u8> = vec![0x16, 0x03, 0x01, 0x00, 0x00, 0x01, 0x00, 0x00, 0x00, 0x03, 0x03];
    v.extend(std::iter::repeat(0u8).take(32));
    v.extend_from_slice(&[0x00, 0x00, 0x02, 0x13, 0x01, 0x01, 0x00]);
    let mut exts: Vec<u8> = Vec::new();
    // an unknown extension with two bytes of data
    exts.extend_from_slice(&[0x00, 0x0a, 0x00, 0x02, 0xaa, 0xbb]);
    // early data
    exts.extend_from_slice(&[0x00, 0x2a, 0x00, 0x00]);
    // server name: an entry of another type, then "b.c", then "d.e"
    exts.extend_from_slice(&[0x00, 0x00, 0x00, 0x11, 0x00, 0x0f]);
    exts.extend_from_slice(&[0x01, 0x00, 0x01, 0xff]);
    exts.extend_from_slice(&[0x00, 0x00, 0x03, b'b', b'.', b'c']);
    exts.extend_from_slice(&[0x00, 0x00, 0x02, b'd', b'e']);
    // a second server name extension
    exts.extend_from_slice(&[0x00, 0x00, 0x00, 0x06, 0x00, 0x04, 0x00, 0x00, 0x01, b'z']);
    v.extend_from_slice(&[(exts.len() / 256) as u8, (exts.len() % 256) as u8]);
    v.extend_from_slice(&exts);
    let message = v.len() - 9;
    let record = v.len() - 5;
    v[3] = (record / 256) as u8;
    v[4] = (record % 256) as u8;
    v[7] = (message / 256) as u8;
    v[8] = (message % 256) as u8;
    assert_eq!(
        parse_client_hello(&v),
        Ok(ClientHello { server_name: Some(host("b.c")), early_data: true })
    );
}

#[test]
fn full_buffer_without_a_whole_hello_is_refused() {
    // a record that announces 4096 bytes, of which the buffer holds 2043
    let mut v: Vec<u8> = vec![0x16, 0x03, 0x01, 0x10, 0x00, 0x01, 0x00, 0x0f, 0xfc, 0x03, 0x03];
    v.resize(2048, 0);
    assert_eq!(v.len(), 2048);
    assert_eq!(parse_client_hello(&v), Err(ParseError));
}

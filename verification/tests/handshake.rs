use moproxy::dest::{Address, Destination};
use moproxy::handshake::{
    http_accepts, http_request, socks5_reply, socks5_request, target_text, ReplyTail,
    SOCKS5_MAX_NAME, SOCKS5_REPLY_HEAD,
};
use moproxy::tls::Hostname;

fn named(name: &[u8], port: u16) -> Destination {
    Destination { host: Address::Domain(Hostname::new(name.to_vec()).expect("valid")), port }
}

#[test]
fn socks5_request_for_ipv4() {
    let dest = Destination { host: Address::V4([93, 184, 216, 34]), port: 80 };
    assert_eq!(socks5_request(&dest), Some(vec![5, 1, 0, 5, 1, 0, 1, 93, 184, 216, 34, 0, 80]));
}

#[test]
fn socks5_request_for_name_and_ipv6() {
    let mut expected = vec![5, 1, 0, 5, 1, 0, 3, 11];
    expected.extend_from_slice(b"example.com");
    expected.extend_from_slice(&[0x01, 0xbb]);
    assert_eq!(socks5_request(&named(b"example.com", 443)), Some(expected));
    let mut six = [0u8; 16];
    six[0] = 0x20;
    six[15] = 1;
    let mut expected = vec![5, 1, 0, 5, 1, 0, 4];
    expected.extend_from_slice(&six);
    expected.extend_from_slice(&[0x1f, 0x90]);
    assert_eq!(socks5_request(&Destination { host: Address::V6(six), port: 8080 }), Some(expected));
}

#[test]
fn socks5_name_must_fit_one_length_byte() {
    assert_eq!(SOCKS5_MAX_NAME, 255);
    let longest = socks5_request(&named(&[b'a'; 255], 1)).expect("fits");
    assert_eq!(longest.len(), 6 + 2 + 255 + 2);
    assert_eq!(longest[7], 255);
    assert_eq!(socks5_request(&named(&[b'a'; 256], 1)), None);
}

#[test]
fn http_request_is_a_bare_connect() {
    let dest = Destination { host: Address::V4([1, 2, 3, 4]), port: 443 };
    assert_eq!(
        http_request(&dest),
        b"CONNECT 1.2.3.4:443 HTTP/1.1\r\nHost: 1.2.3.4:443\r\n\r\n".to_vec()
    );
    assert_eq!(
        http_request(&named(b"example.com", 443)),
        b"CONNECT example.com:443 HTTP/1.1\r\nHost: example.com:443\r\n\r\n".to_vec()
    );
}

#[test]
fn target_text_spells_numbers_out() {
    let v4 = |a: [u8; 4], port: u16| target_text(&Destination { host: Address::V4(a), port });
    assert_eq!(v4([0, 9, 10, 255], 0), b"0.9.10.255:0".to_vec());
    assert_eq!(v4([100, 99, 101, 200], 65535), b"100.99.101.200:65535".to_vec());
    let six = [0x20, 0x01, 0x0d, 0xb8, 0, 0, 0, 0, 0, 0, 0, 0, 0xab, 0xcd, 0, 0x01];
    assert_eq!(
        target_text(&Destination { host: Address::V6(six), port: 8080 }),
        b"[2001:0db8:0000:0000:0000:0000:abcd:0001]:8080".to_vec()
    );
}

#[test]
fn socks5_reply_is_judged_by_its_head() {
    assert_eq!(SOCKS5_REPLY_HEAD, 6);
    assert_eq!(socks5_reply(&[5, 0, 5, 0, 0, 1]), Some(ReplyTail::Fixed(6)));
    assert_eq!(socks5_reply(&[5, 0, 5, 0, 0, 4]), Some(ReplyTail::Fixed(18)));
    assert_eq!(socks5_reply(&[5, 0, 5, 0, 0, 3]), Some(ReplyTail::Named));
    assert_eq!(socks5_reply(&[5, 0, 5, 0, 0, 9]), None);
    assert_eq!(socks5_reply(&[5, 0, 5, 1, 0, 1]), None);
    assert_eq!(socks5_reply(&[5, 0xff, 5, 0, 0, 1]), None);
    assert_eq!(socks5_reply(&[4, 0, 5, 0, 0, 1]), None);
    assert_eq!(socks5_reply(&[5, 0, 5, 0, 0]), None);
    assert_eq!(socks5_reply(&[5, 0, 5, 0, 0, 1, 0]), None);
}

#[test]
fn http_success_is_a_2xx_status() {
    assert!(http_accepts(b"HTTP/1.1 200 Connection established\r\n\r\n"));
    assert!(http_accepts(b"HTTP/1.0 204 \r\n\r\n"));
    assert!(http_accepts(b"HTTP/1.1 200"));
    assert!(!http_accepts(b"HTTP/1.1 20"));
    assert!(!http_accepts(b"HTTP/1.1 407 Proxy Authentication Required\r\n\r\n"));
    assert!(!http_accepts(b"HTTP/2.0 200 OK\r\n\r\n"));
    assert!(!http_accepts(b"SSH-2.0-OpenSSH_8.9\r\n"));
    assert!(!http_accepts(b""));
}

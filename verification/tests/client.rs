use moproxy::client::{
    effective_parallelism, ConnectedClient, Connectable, NewClient, PipeOutcome,
    HELLO_BUFFER_SIZE, HELLO_TIMEOUT_MS, KEEPALIVE_SECS,
};
use moproxy::dest::{
    original_dest, port_from_network_order, Address, Destination, NoRedirection, RawAddrV4,
    RawAddrV6,
};
use moproxy::encode::serialize_client_hello;
use moproxy::race::{RaceStatus, RaceStep};
use moproxy::splice::{Pipe, PipeAction, Side};
use moproxy::stats::{ServerStats, Traffic};
use moproxy::tls::{parse_client_hello, ClientHello, Hostname};

fn v4(addr: [u8; 4], port: u16) -> Option<RawAddrV4> {
    Some(RawAddrV4 { addr, port: port.to_be_bytes() })
}

fn tls_prefix(name: &str) -> Vec<u8> {
    let name = Hostname::new(name.as_bytes().to_vec()).expect("valid host name");
    serialize_client_hello(&ClientHello { server_name: Some(name), early_data: false })
        .expect("short name")
}

fn read_into_buffer(bytes: &[u8]) -> (Vec<u8>, usize) {
    let mut buf = vec![0u8; HELLO_BUFFER_SIZE];
    buf[..bytes.len()].copy_from_slice(bytes);
    (buf, bytes.len())
}

#[test]
fn limits_are_as_documented() {
    assert_eq!(HELLO_BUFFER_SIZE, 2048);
    assert_eq!(HELLO_TIMEOUT_MS, 500);
    assert_eq!(KEEPALIVE_SECS, 300);
}

#[test]
fn port_bytes_are_in_network_order() {
    assert_eq!(port_from_network_order([0x01, 0xbb]), 443);
    assert_eq!(port_from_network_order([0x00, 0x50]), 80);
    assert_eq!(port_from_network_order([0xff, 0xff]), 65535);
    assert_eq!(port_from_network_order([0x50, 0x00]), 20480);
}

#[test]
fn original_dest_prefers_ipv4() {
    let six = Some(RawAddrV6 { addr: [0x20; 16], port: [0x1f, 0x90] });
    assert_eq!(
        original_dest(v4([93, 184, 216, 34], 80), six),
        Ok(Destination { host: Address::V4([93, 184, 216, 34]), port: 80 })
    );
    assert_eq!(
        original_dest(None, six),
        Ok(Destination { host: Address::V6([0x20; 16]), port: 8080 })
    );
    assert_eq!(original_dest(None, None), Err(NoRedirection));
}

#[test]
fn client_without_redirection_is_refused() {
    assert!(NewClient::from_socket(None, None, vec![0]).is_err());
}

#[test]
fn plain_http_through_one_upstream() {
    let client = NewClient::from_socket(v4([93, 184, 216, 34], 80), None, vec![7]).expect("dest");
    let request = b"GET / HTTP/1.0\r\nHost: example.com\r\n\r\n";
    let (buf, len) = read_into_buffer(request);
    assert_eq!(len, 37);
    let client = client.retrive_dest(buf, len);
    assert!(!client.allow_parallel());
    assert_eq!(client.pending_data(), Some(&request[..]));
    assert_eq!(client.dest(), &Destination { host: Address::V4([93, 184, 216, 34]), port: 80 });
    let mut race = client.connect_server(4);
    assert_eq!(race.parallelism(), 1);
    assert_eq!(race.in_flight(), 1);
    assert!(race.wait_response());
    assert_eq!(race.pending_data(), Some(&request[..]));
    assert_eq!(race.dest(), &Destination { host: Address::V4([93, 184, 216, 34]), port: 80 });
    assert_eq!(race.on_connected(0), RaceStep::Commit { winner: 0, cancel: vec![] });
    let connected = ConnectedClient::from_race(race).expect("a winner");
    assert_eq!(connected.server(), 7);
    assert_eq!(connected.replayed(), 37);
    let mut stats = ServerStats::new();
    let serving = connected.serve(&mut stats);
    assert_eq!(stats.conn_alive(), 1);
    // the client has nothing more to say; the upstream answers and closes
    let mut pipe = Pipe::new();
    assert_eq!(pipe.on_read(Side::Upstream, 1000), PipeAction::Forward { to: Side::Client, len: 1000 });
    assert_eq!(pipe.on_read(Side::Client, 0), PipeAction::HalfClose { to: Side::Upstream });
    assert_eq!(pipe.on_read(Side::Upstream, 256), PipeAction::Forward { to: Side::Client, len: 256 });
    let outcome = match pipe.on_read(Side::Upstream, 0) {
        PipeAction::Finish { to: Side::Client, outcome } => outcome,
        other => panic!("splice did not finish: {:?}", other),
    };
    assert_eq!(outcome, PipeOutcome { amt: Traffic { tx_bytes: 0, rx_bytes: 1256 }, error: false });
    assert_eq!(serving.finish(&mut stats, outcome), Ok(()));
    assert_eq!(stats.conn_alive(), 0);
    assert_eq!(stats.conn_total(), 1);
    assert_eq!(stats.conn_closed(), 1);
    assert_eq!(stats.conn_error(), 0);
    assert_eq!(stats.traffic(), Traffic { tx_bytes: 37, rx_bytes: 1256 });
}

#[test]
fn replayed_and_spliced_bytes_add_up() {
    let client = NewClient::from_socket(v4([1, 2, 3, 4], 443), None, vec![0]).expect("dest");
    let prefix = tls_prefix("example.com");
    let (buf, len) = read_into_buffer(&prefix);
    let mut race = client.retrive_dest(buf, len).connect_server(1);
    race.on_connected(0);
    let connected = ConnectedClient::from_race(race).expect("a winner");
    assert_eq!(connected.replayed(), prefix.len());
    let mut stats = ServerStats::new();
    stats.add_traffic(Traffic { tx_bytes: 5, rx_bytes: 6 });
    let serving = connected.serve(&mut stats);
    let mut pipe = Pipe::new();
    pipe.on_read(Side::Client, 100);
    pipe.on_read(Side::Upstream, 7);
    let outcome = match pipe.on_error() {
        PipeAction::Abort { outcome } => outcome,
        other => panic!("splice did not abort: {:?}", other),
    };
    assert_eq!(serving.finish(&mut stats, outcome), Err(()));
    assert_eq!(
        stats.traffic(),
        Traffic { tx_bytes: 5 + prefix.len() as u64 + 100, rx_bytes: 6 + 7 }
    );
    assert_eq!(stats.conn_error(), 1);
}

#[test]
fn only_the_winners_counters_change() {
    let client = NewClient::from_socket(v4([1, 2, 3, 4], 443), None, vec![0, 1]).expect("dest");
    let prefix = tls_prefix("example.com");
    let (buf, len) = read_into_buffer(&prefix);
    let mut race = client.retrive_dest(buf, len).connect_server(2);
    assert_eq!(race.on_connected(1), RaceStep::Commit { winner: 1, cancel: vec![0] });
    let connected = ConnectedClient::from_race(race).expect("a winner");
    let mut all = vec![ServerStats::new(), ServerStats::new()];
    let serving = connected.serve_among(&mut all).expect("room to count");
    assert_eq!(all[0], ServerStats::new());
    assert_eq!(all[1].conn_total(), 1);
    assert_eq!(all[1].conn_alive(), 1);
    let outcome = PipeOutcome { amt: Traffic { tx_bytes: 3, rx_bytes: 4 }, error: false };
    assert_eq!(serving.finish_among(&mut all, outcome), Ok(()));
    assert_eq!(all[0], ServerStats::new());
    assert_eq!(all[1].conn_alive(), 0);
    assert_eq!(all[1].conn_closed(), 1);
    assert_eq!(all[1].traffic(), Traffic { tx_bytes: prefix.len() as u64 + 3, rx_bytes: 4 });
}

#[test]
fn service_on_unknown_counters_records_nothing() {
    let client = NewClient::from_socket(v4([1, 2, 3, 4], 443), None, vec![9]).expect("dest");
    let mut race = client.connect_server(1);
    race.on_connected(0);
    let connected = ConnectedClient::from_race(race).expect("a winner");
    let mut all = vec![ServerStats::new(), ServerStats::new()];
    assert!(connected.serve_among(&mut all).is_none());
    assert_eq!(all, vec![ServerStats::new(), ServerStats::new()]);

    let client = NewClient::from_socket(v4([1, 2, 3, 4], 443), None, vec![1]).expect("dest");
    let mut race = client.connect_server(1);
    race.on_connected(0);
    let connected = ConnectedClient::from_race(race).expect("a winner");
    let mut one = ServerStats::new();
    let serving = connected.serve(&mut one);
    // these counters know of no open connection
    let outcome = PipeOutcome { amt: Traffic { tx_bytes: 3, rx_bytes: 4 }, error: false };
    assert_eq!(serving.finish_among(&mut all, outcome), Err(()));
    assert_eq!(all, vec![ServerStats::new(), ServerStats::new()]);
}

#[test]
fn tls_with_sni_rewrites_destination() {
    let client = NewClient::from_socket(v4([1, 2, 3, 4], 443), None, vec![10, 11]).expect("dest");
    let prefix = tls_prefix("example.com");
    let (buf, len) = read_into_buffer(&prefix);
    let client = client.retrive_dest(buf, len);
    assert!(client.allow_parallel());
    assert_eq!(client.pending_data(), Some(&prefix[..]));
    let pending = client.pending_data().expect("bytes were read");
    let hello = parse_client_hello(pending).expect("hedging needs a ClientHello");
    assert!(!hello.early_data);
    let name = Hostname::new(b"example.com".to_vec()).expect("valid");
    assert_eq!(hello.server_name, Some(name.clone()));
    assert_eq!(client.dest(), &Destination { host: Address::Domain(name), port: 443 });
    assert!(client.dest().is_domain());
    let race = client.connect_server(2);
    assert_eq!(race.parallelism(), 2);
    assert_eq!(race.in_flight(), 2);
    assert_eq!(race.attempted(), 2);
    assert_eq!(race.status(), RaceStatus::Running);
    assert_eq!(race.server_at(0), Some(10));
    assert_eq!(race.server_at(1), Some(11));
    assert_eq!(race.server_at(2), None);
}

#[test]
fn hello_timeout_means_single_connect() {
    let client = NewClient::from_socket(v4([1, 2, 3, 4], 443), None, vec![1, 2, 3]).expect("dest");
    let client = client.retrive_dest(vec![0u8; HELLO_BUFFER_SIZE], 0);
    assert!(!client.allow_parallel());
    assert_eq!(client.pending_data(), None);
    assert_eq!(client.dest(), &Destination { host: Address::V4([1, 2, 3, 4]), port: 443 });
    let race = client.connect_server(3);
    assert_eq!(race.parallelism(), 1);
    assert_eq!(race.in_flight(), 1);
    assert_eq!(race.pending_data(), None);
}

#[test]
fn full_buffer_of_partial_hello_forbids_hedging() {
    let mut buf: Vec<u8> = vec![0x16, 0x03, 0x01, 0x10, 0x00, 0x01, 0x00, 0x0f, 0xfc, 0x03, 0x03];
    buf.resize(HELLO_BUFFER_SIZE, 0);
    let client = NewClient::from_socket(v4([1, 2, 3, 4], 443), None, vec![1, 2]).expect("dest");
    let client = client.retrive_dest(buf.clone(), HELLO_BUFFER_SIZE);
    assert!(!client.allow_parallel());
    assert_eq!(client.pending_data(), Some(&buf[..]));
    assert!(!client.dest().is_domain());
    assert_eq!(client.connect_server(2).in_flight(), 1);
}

#[test]
fn read_length_beyond_the_buffer_keeps_the_buffer() {
    let prefix = tls_prefix("example.com");
    let client = NewClient::from_socket(v4([1, 2, 3, 4], 443), None, vec![1]).expect("dest");
    let client = client.retrive_dest(prefix.clone(), prefix.len() + 10);
    assert!(client.allow_parallel());
    assert_eq!(client.pending_data(), Some(&prefix[..]));
}

#[test]
fn new_client_connects_one_at_a_time_without_waiting() {
    let client = NewClient::from_socket(v4([1, 2, 3, 4], 443), None, vec![1, 2, 3]).expect("dest");
    let race = client.connect_server(3);
    assert_eq!(race.parallelism(), 1);
    assert_eq!(race.in_flight(), 1);
    assert!(!race.wait_response());
    assert_eq!(race.pending_data(), None);
}

#[test]
fn parallelism_of_one_is_the_plaintext_lane() {
    assert_eq!(effective_parallelism(true, 1, 5), 1);
    assert_eq!(effective_parallelism(false, 1, 5), 1);
    assert_eq!(effective_parallelism(true, 4, 2), 2);
    assert_eq!(effective_parallelism(true, 2, 4), 2);
    assert_eq!(effective_parallelism(false, 4, 2), 1);
    assert_eq!(effective_parallelism(true, 3, 0), 0);
    let prefix = tls_prefix("example.com");
    let client = NewClient::from_socket(v4([1, 2, 3, 4], 443), None, vec![1, 2, 3]).expect("dest");
    let (buf, len) = read_into_buffer(&prefix);
    let race = client.retrive_dest(buf, len).connect_server(1);
    assert_eq!(race.in_flight(), 1);
}

#[test]
fn empty_upstream_list_is_down_at_once() {
    let prefix = tls_prefix("example.com");
    let client = NewClient::from_socket(v4([1, 2, 3, 4], 443), None, vec![]).expect("dest");
    let (buf, len) = read_into_buffer(&prefix);
    let race = client.retrive_dest(buf, len).connect_server(2);
    assert_eq!(race.status(), RaceStatus::AllDown);
    assert_eq!(race.in_flight(), 0);
    assert!(ConnectedClient::from_race(race).is_none());
}

#[test]
fn splice_error_is_accounted() {
    let client = NewClient::from_socket(v4([1, 2, 3, 4], 443), None, vec![5]).expect("dest");
    let mut race = client.connect_server(1);
    race.on_connected(0);
    let connected = ConnectedClient::from_race(race).expect("a winner");
    let mut stats = ServerStats::new();
    assert!(stats.can_open());
    let serving = connected.serve(&mut stats);
    assert_eq!(serving.server(), 5);
    let outcome =
        PipeOutcome { amt: Traffic { tx_bytes: 10_000_000, rx_bytes: 5_000_000 }, error: true };
    assert_eq!(serving.finish(&mut stats, outcome), Err(()));
    assert_eq!(stats.conn_alive(), 0);
    assert_eq!(stats.conn_error(), 1);
    assert_eq!(stats.traffic(), Traffic { tx_bytes: 10_000_000, rx_bytes: 5_000_000 });
}

#[test]
fn traffic_totals_stop_at_the_top() {
    let mut stats = ServerStats::new();
    stats.add_traffic(Traffic { tx_bytes: u64::MAX - 1, rx_bytes: 3 });
    stats.add_traffic(Traffic { tx_bytes: 5, rx_bytes: 4 });
    assert_eq!(stats.traffic(), Traffic { tx_bytes: u64::MAX, rx_bytes: 7 });
}

#[test]
fn opens_and_closes_balance() {
    let mut stats = ServerStats::new();
    stats.update_stats_conn_open();
    stats.update_stats_conn_open();
    assert_eq!(stats.conn_alive(), 2);
    stats.update_stats_conn_close(false);
    stats.update_stats_conn_close(true);
    assert_eq!(stats.conn_alive(), 0);
    assert_eq!(stats.conn_total(), stats.conn_closed());
    assert_eq!(stats.conn_error(), 1);
}

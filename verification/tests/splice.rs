use moproxy::client::PipeOutcome;
use moproxy::splice::{Pipe, PipeAction, Side};
use moproxy::stats::Traffic;

#[test]
fn echo_is_forwarded_whole_and_counted() {
    let mut pipe = Pipe::new();
    assert_eq!(pipe.on_read(Side::Client, 37), PipeAction::Forward { to: Side::Upstream, len: 37 });
    assert_eq!(pipe.on_read(Side::Upstream, 1000), PipeAction::Forward { to: Side::Client, len: 1000 });
    assert_eq!(pipe.on_read(Side::Upstream, 256), PipeAction::Forward { to: Side::Client, len: 256 });
    assert_eq!(pipe.amount(), Traffic { tx_bytes: 37, rx_bytes: 1256 });
    assert_eq!(pipe.on_read(Side::Client, 0), PipeAction::HalfClose { to: Side::Upstream });
    assert!(!pipe.over());
    // the closed direction is silent, the other still drains
    assert_eq!(pipe.on_read(Side::Client, 5), PipeAction::Ignored);
    assert_eq!(pipe.on_read(Side::Upstream, 4), PipeAction::Forward { to: Side::Client, len: 4 });
    assert_eq!(
        pipe.on_read(Side::Upstream, 0),
        PipeAction::Finish {
            to: Side::Client,
            outcome: PipeOutcome { amt: Traffic { tx_bytes: 37, rx_bytes: 1260 }, error: false },
        }
    );
    assert!(pipe.over());
    assert_eq!(pipe.on_read(Side::Upstream, 9), PipeAction::Ignored);
    assert_eq!(pipe.on_error(), PipeAction::Ignored);
}

#[test]
fn splice_mid_error() {
    let mut pipe = Pipe::new();
    for _ in 0..10 {
        pipe.on_read(Side::Client, 1_000_000);
    }
    for _ in 0..5 {
        pipe.on_read(Side::Upstream, 1_000_000);
    }
    assert_eq!(
        pipe.on_error(),
        PipeAction::Abort {
            outcome: PipeOutcome {
                amt: Traffic { tx_bytes: 10_000_000, rx_bytes: 5_000_000 },
                error: true,
            },
        }
    );
    assert!(pipe.over());
    assert_eq!(pipe.on_read(Side::Client, 1), PipeAction::Ignored);
}

#[test]
fn byte_counters_stop_at_the_top() {
    let mut pipe = Pipe::new();
    pipe.amt = Traffic { tx_bytes: u64::MAX - 1, rx_bytes: 0 };
    assert_eq!(pipe.on_read(Side::Client, 7), PipeAction::Forward { to: Side::Upstream, len: 7 });
    assert_eq!(pipe.amount().tx_bytes, u64::MAX);
}

#[test]
fn peer_is_the_other_end() {
    assert_eq!(Pipe::peer(Side::Client), Side::Upstream);
    assert_eq!(Pipe::peer(Side::Upstream), Side::Client);
}

use moproxy::attempt::{Attempt, AttemptAction, AttemptEvent, AttemptPhase};
use moproxy::client::ConnectedClient;
use moproxy::dest::{Address, Destination};
use moproxy::race::{attempt_timeout_ms, Race, RaceStatus, RaceStep, MIN_ATTEMPT_TIMEOUT_MS};

fn dest() -> Destination {
    Destination { host: Address::V4([1, 2, 3, 4]), port: 443 }
}

#[test]
fn first_upstream_hangs_second_wins() {
    let mut race = Race::start(dest(), vec![100, 200], 2, true, Some(vec![0x16]));
    assert_eq!(race.in_flight(), 2);
    assert_eq!(race.on_connected(1), RaceStep::Commit { winner: 1, cancel: vec![0] });
    assert_eq!(race.status(), RaceStatus::Won(1));
    assert_eq!(race.in_flight(), 0);
    // the late result of the loser changes nothing
    assert_eq!(race.on_connected(0), RaceStep::Ignored);
    assert_eq!(race.on_failed(0), RaceStep::Ignored);
    assert_eq!(race.status(), RaceStatus::Won(1));
    let connected = ConnectedClient::from_race(race).expect("a winner");
    assert_eq!(connected.server(), 200);
    assert_eq!(connected.dest(), &dest());
    assert_eq!(connected.replayed(), 1);
}

#[test]
fn all_upstreams_down() {
    let mut race = Race::start(dest(), vec![1, 2, 3], 1, false, None);
    assert_eq!(race.in_flight(), 1);
    assert_eq!(race.on_failed(0), RaceStep::Launch(1));
    assert_eq!(race.on_failed(1), RaceStep::Launch(2));
    assert_eq!(race.attempted(), 3);
    assert_eq!(race.on_failed(2), RaceStep::AllDown);
    assert_eq!(race.status(), RaceStatus::AllDown);
    assert_eq!(race.attempted(), 3);
    assert!(ConnectedClient::from_race(race).is_none());
}

#[test]
fn all_upstreams_down_whatever_the_parallelism() {
    for k in 1..=4 {
        for order in [[0usize, 1, 2], [2, 1, 0], [1, 0, 2], [1, 2, 0]] {
            let mut race = Race::start(dest(), vec![1, 2, 3], k, true, Some(vec![0x16]));
            let mut pending: Vec<usize> = order.to_vec();
            let mut failures = 0;
            let mut downs = 0;
            while race.status() == RaceStatus::Running {
                // fail, in the order wished for, whichever attempt is in flight
                let at = (0..pending.len())
                    .find(|&i| pending[i] < race.attempted())
                    .expect("something is in flight");
                let pos = pending.remove(at);
                match race.on_failed(pos) {
                    RaceStep::Ignored => panic!("attempt {} was in flight", pos),
                    RaceStep::AllDown => {
                        failures += 1;
                        downs += 1;
                    }
                    _ => failures += 1,
                }
                assert!(race.in_flight() <= k);
            }
            assert_eq!(failures, 3);
            assert_eq!(downs, 1);
            assert_eq!(race.status(), RaceStatus::AllDown);
            assert!(ConnectedClient::from_race(race).is_none());
        }
    }
}

#[test]
fn hedged_race_refills_in_list_order() {
    let mut race = Race::start(dest(), vec![9, 8, 7, 6], 2, true, Some(vec![1, 2, 3]));
    assert_eq!(race.attempted(), 2);
    assert_eq!(race.on_failed(1), RaceStep::Launch(2));
    assert_eq!(race.in_flight(), 2);
    assert_eq!(race.on_failed(1), RaceStep::Ignored);
    assert_eq!(race.on_failed(3), RaceStep::Ignored);
    assert_eq!(race.on_failed(0), RaceStep::Launch(3));
    assert_eq!(race.on_failed(2), RaceStep::Wait);
    assert_eq!(race.in_flight(), 1);
    assert_eq!(race.on_failed(3), RaceStep::AllDown);
    assert_eq!(race.status(), RaceStatus::AllDown);
}

#[test]
fn winner_cancels_the_others_in_launch_order() {
    let mut race = Race::start(dest(), vec![9, 8, 7, 6], 3, true, None);
    assert_eq!(race.on_failed(0), RaceStep::Launch(3));
    assert_eq!(race.on_connected(2), RaceStep::Commit { winner: 2, cancel: vec![1, 3] });
}

#[test]
fn parallelism_is_capped_by_the_list() {
    let race = Race::start(dest(), vec![9, 8], 5, true, None);
    assert_eq!(race.in_flight(), 2);
    assert_eq!(race.parallelism(), 5);
    assert_eq!(race.status(), RaceStatus::Running);
}

#[test]
fn attempt_timeout_is_three_seconds_or_twice_the_latency() {
    assert_eq!(MIN_ATTEMPT_TIMEOUT_MS, 3000);
    assert_eq!(attempt_timeout_ms(None), 3000);
    assert_eq!(attempt_timeout_ms(Some(0)), 3000);
    assert_eq!(attempt_timeout_ms(Some(1500)), 3000);
    assert_eq!(attempt_timeout_ms(Some(1501)), 3002);
    assert_eq!(attempt_timeout_ms(Some(2000)), 4000);
    assert_eq!(attempt_timeout_ms(Some(u64::MAX)), u64::MAX);
}

#[test]
fn attempt_replays_prefix_before_it_stands() {
    let mut a = Attempt::new(true, true);
    assert_eq!(a.step(AttemptEvent::Connected), AttemptAction::SendHandshake);
    assert_eq!(a.step(AttemptEvent::HandshakeSent), AttemptAction::SendPrefix);
    assert!(!a.prefix_sent);
    assert_eq!(a.step(AttemptEvent::PrefixSent), AttemptAction::AwaitAck);
    assert!(a.prefix_sent);
    assert!(!a.is_established());
    assert_eq!(a.step(AttemptEvent::Acknowledged), AttemptAction::ReportSuccess);
    assert!(a.is_established());
    assert_eq!(a.step(AttemptEvent::Broken), AttemptAction::Ignored);
    assert!(a.is_established());
}

#[test]
fn attempt_without_wait_succeeds_once_flushed() {
    let mut a = Attempt::new(false, false);
    assert_eq!(a.step(AttemptEvent::Connected), AttemptAction::SendHandshake);
    assert_eq!(a.step(AttemptEvent::HandshakeSent), AttemptAction::ReportSuccess);
    assert_eq!(a.phase, AttemptPhase::Established);
    let mut b = Attempt::new(true, false);
    b.step(AttemptEvent::Connected);
    assert_eq!(b.step(AttemptEvent::HandshakeSent), AttemptAction::SendPrefix);
    assert_eq!(b.step(AttemptEvent::PrefixSent), AttemptAction::ReportSuccess);
    let mut c = Attempt::new(false, true);
    c.step(AttemptEvent::Connected);
    assert_eq!(c.step(AttemptEvent::HandshakeSent), AttemptAction::AwaitAck);
}

#[test]
fn attempt_fails_on_break_or_stray_event() {
    let mut a = Attempt::new(true, true);
    assert_eq!(a.step(AttemptEvent::Broken), AttemptAction::ReportFailure);
    assert_eq!(a.phase, AttemptPhase::Failed);
    assert_eq!(a.step(AttemptEvent::Connected), AttemptAction::Ignored);
    let mut b = Attempt::new(true, true);
    b.step(AttemptEvent::Connected);
    assert_eq!(b.step(AttemptEvent::Acknowledged), AttemptAction::ReportFailure);
    let mut c = Attempt::new(true, true);
    c.step(AttemptEvent::Connected);
    c.step(AttemptEvent::HandshakeSent);
    assert_eq!(c.step(AttemptEvent::Broken), AttemptAction::ReportFailure);
    assert!(!c.prefix_sent);
}

//! The hedged race among upstream proxies for one client.
//!
//! The race decides; the caller performs. It is told which attempts to
//! launch, reports back how each ended, and learns when to commit to a
//! winner or to give up.
use crate::dest::{Destination, DestinationView};
use vstd::prelude::*;

verus! {

/// Shortest time an attempt is given, in milliseconds.
pub const MIN_ATTEMPT_TIMEOUT_MS: u64 = 3000;

/// How a race stands.
#[derive(Clone, Copy, Debug, PartialEq, Eq, Structural)]
pub enum RaceStatus {
    /// Attempts are in flight.
    Running,
    /// The attempt at this position of the list completed first.
    Won(usize),
    /// Every upstream was tried and failed.
    AllDown,
}

/// What the caller has to do after reporting an event.
#[derive(Clone, Debug, PartialEq, Eq)]
pub enum RaceStep {
    /// Start an attempt on the upstream at this position.
    Launch(usize),
    /// Nothing to start; other attempts are still in flight.
    Wait,
    /// Use the winner's socket and close those of the attempts in `cancel`.
    Commit { winner: usize, cancel: Vec<usize> },
    /// Give the client up.
    AllDown,
    /// The event named no attempt in flight; nothing changed.
    Ignored,
}

/// The race for one client over a snapshot of the upstream list.
#[derive(Debug)]
pub struct Race {
    dest: Destination,
    list: Vec<usize>,
    pending_data: Option<Vec<u8>>,
    wait_response: bool,
    k: usize,
    next: usize,
    in_flight: Vec<usize>,
    status: RaceStatus,
}

/// Mathematical content of a [`Race`]. Positions below `next` have been
/// attempted; those in `in_flight` have not finished yet.
pub struct RaceView {
    pub dest: DestinationView,
    pub list: Seq<usize>,
    pub pending_data: Option<Seq<u8>>,
    pub wait_response: bool,
    pub k: nat,
    pub next: nat,
    pub in_flight: Seq<usize>,
    pub status: RaceStatus,
}

/// The positions `0, 1, .., n - 1`.
pub open spec fn first_positions(n: nat) -> Seq<usize> {
    Seq::new(n, |i: int| i as usize)
}

/// The smaller of two numbers.
pub open spec fn spec_min(a: nat, b: nat) -> nat {
    if a < b {
        a
    } else {
        b
    }
}

/// `s` without its entry `pos`.
pub open spec fn spec_without(s: Seq<usize>, pos: usize) -> Seq<usize> {
    s.remove(s.index_of(pos))
}

impl RaceView {
    /// Whether the upstream at `pos` has been attempted.
    pub open spec fn attempted(&self, pos: int) -> bool {
        0 <= pos < self.next
    }

    /// What holds of every race: at most `k` distinct attempts are in
    /// flight, all on positions already handed out; a running race keeps
    /// `k` in flight while untried upstreams remain; a race is over only
    /// with nothing in flight, and is lost only with every upstream tried.
    pub open spec fn wf(&self) -> bool {
        &&& self.k >= 1 || self.list.len() == 0
        &&& self.next <= self.list.len() <= usize::MAX
        &&& self.in_flight.len() <= self.k
        &&& forall|i: int| 0 <= i < self.in_flight.len() ==> #[trigger] self.in_flight[i] < self.next
        &&& forall|i: int, j: int|
            0 <= i < j < self.in_flight.len() ==> self.in_flight[i] != self.in_flight[j]
        &&& match self.status {
            RaceStatus::Running => self.in_flight.len() >= 1 && (self.in_flight.len() == self.k
                || self.next == self.list.len()),
            RaceStatus::Won(w) => self.in_flight.len() == 0 && w < self.next,
            RaceStatus::AllDown => self.in_flight.len() == 0 && self.next == self.list.len(),
        }
    }

    /// Whether an event about `pos` concerns this race.
    pub open spec fn expects(&self, pos: usize) -> bool {
        self.status == RaceStatus::Running && self.in_flight.contains(pos)
    }

    /// The race after the attempt at `pos` failed.
    pub open spec fn after_failure(&self, pos: usize) -> RaceView {
        let rest = spec_without(self.in_flight, pos);
        if !self.expects(pos) {
            *self
        } else if self.next < self.list.len() {
            RaceView {
                next: self.next + 1,
                in_flight: rest.push(self.next as usize),
                ..*self
            }
        } else if rest.len() == 0 {
            RaceView { in_flight: rest, status: RaceStatus::AllDown, ..*self }
        } else {
            RaceView { in_flight: rest, ..*self }
        }
    }

    /// The race after the attempt at `pos` succeeded.
    pub open spec fn after_success(&self, pos: usize) -> RaceView {
        if !self.expects(pos) {
            *self
        } else {
            RaceView { in_flight: Seq::empty(), status: RaceStatus::Won(pos), ..*self }
        }
    }
}

impl View for Race {
    type V = RaceView;

    closed spec fn view(&self) -> RaceView {
        RaceView {
            dest: self.dest@,
            list: self.list@,
            pending_data: match self.pending_data {
                Some(data) => Some(data@),
                None => None,
            },
            wait_response: self.wait_response,
            k: self.k as nat,
            next: self.next as nat,
            in_flight: self.in_flight@,
            status: self.status,
        }
    }
}

/// Removing the entry at `idx` from a list without repetitions removes the
/// value that stood there.
proof fn lemma_without(s: Seq<usize>, idx: int)
    requires
        0 <= idx < s.len(),
        forall|i: int, j: int| 0 <= i < j < s.len() ==> s[i] != s[j],
    ensures
        spec_without(s, s[idx]) == s.remove(idx),
        forall|i: int, j: int|
            0 <= i < j < s.remove(idx).len() ==> s.remove(idx)[i] != s.remove(idx)[j],
        forall|i: int| 0 <= i < s.remove(idx).len() ==> s.contains(#[trigger] s.remove(idx)[i]),
{
    let found = s.index_of(s[idx]);
    assert(s.contains(s[idx]));
    assert(0 <= found < s.len() && s[found] == s[idx]);
    if found < idx {
        assert(s[found] != s[idx]);
    } else if idx < found {
        assert(s[idx] != s[found]);
    }
    let r = s.remove(idx);
    assert forall|i: int, j: int| 0 <= i < j < r.len() implies r[i] != r[j] by {
        let a = if i < idx { i } else { i + 1 };
        let b = if j < idx { j } else { j + 1 };
        assert(r[i] == s[a] && r[j] == s[b] && a < b);
    }
    assert forall|i: int| 0 <= i < r.len() implies s.contains(#[trigger] r[i]) by {
        let a = if i < idx { i } else { i + 1 };
        assert(r[i] == s[a]);
    }
}

impl Race {
    /// The invariant of the type.
    pub open spec fn wf(&self) -> bool {
        self@.wf()
    }

    /// Opens the race: the first `min(k, list.len())` upstreams, in list
    /// order, are to be attempted at once. With an empty list the race is
    /// lost from the start.
    pub fn start(
        dest: Destination,
        list: Vec<usize>,
        k: usize,
        wait_response: bool,
        pending_data: Option<Vec<u8>>,
    ) -> (race: Race)
        requires
            k >= 1 || list@.len() == 0,
        ensures
            race.wf(),
            race@.dest == dest@,
            race@.list == list@,
            race@.k == k,
            race@.wait_response == wait_response,
            race@.pending_data == match pending_data {
                Some(data) => Some(data@),
                None => None::<Seq<u8>>,
            },
            race@.next == spec_min(k as nat, list@.len()),
            race@.in_flight == first_positions(spec_min(k as nat, list@.len())),
            race@.status == if list@.len() == 0 {
                RaceStatus::AllDown
            } else {
                RaceStatus::Running
            },
    {
        let n: usize = if k < list.len() {
            k
        } else {
            list.len()
        };
        let mut in_flight: Vec<usize> = Vec::with_capacity(n);
        let mut i: usize = 0;
        while i < n
            invariant
                i <= n,
                in_flight@ == first_positions(i as nat),
            decreases n - i,
        {
            in_flight.push(i);
            i += 1;
            assert(in_flight@ =~= first_positions(i as nat));
        }
        let status = if n == 0 {
            RaceStatus::AllDown
        } else {
            RaceStatus::Running
        };
        Race { dest, list, pending_data, wait_response, k, next: n, in_flight, status }
    }

    /// Where in `in_flight` the attempt at `pos` stands, if it is in flight.
    fn find(&self, pos: usize) -> (res: Option<usize>)
        ensures
            match res {
                Some(idx) => idx < self@.in_flight.len() && self@.in_flight[idx as int] == pos,
                None => !self@.in_flight.contains(pos),
            },
    {
        let mut i: usize = 0;
        while i < self.in_flight.len()
            invariant
                i <= self.in_flight@.len(),
                forall|j: int| 0 <= j < i ==> self.in_flight@[j] != pos,
            decreases self.in_flight@.len() - i,
        {
            if self.in_flight[i] == pos {
                return Some(i);
            }
            i += 1;
        }
        None
    }

    /// Reports that the attempt at `pos` failed. While untried upstreams
    /// remain the next one in list order takes its place; when none remain
    /// and nothing is in flight the race is lost.
    pub fn on_failed(&mut self, pos: usize) -> (step: RaceStep)
        requires
            old(self).wf(),
        ensures
            final(self).wf(),
            final(self)@ == old(self)@.after_failure(pos),
            step == if !old(self)@.expects(pos) {
                RaceStep::Ignored
            } else if old(self)@.next < old(self)@.list.len() {
                RaceStep::Launch(old(self)@.next as usize)
            } else if final(self)@.in_flight.len() == 0 {
                RaceStep::AllDown
            } else {
                RaceStep::Wait
            },
    {
        match self.status {
            RaceStatus::Running => {},
            _ => {
                return RaceStep::Ignored;
            },
        }
        let idx = match self.find(pos) {
            Some(idx) => idx,
            None => {
                return RaceStep::Ignored;
            },
        };
        proof {
            lemma_without(self.in_flight@, idx as int);
        }
        self.in_flight.remove(idx);
        if self.next < self.list.len() {
            let launched: usize = self.next;
            self.in_flight.push(launched);
            self.next = launched + 1;
            RaceStep::Launch(launched)
        } else if self.in_flight.len() == 0 {
            self.status = RaceStatus::AllDown;
            RaceStep::AllDown
        } else {
            RaceStep::Wait
        }
    }

    /// Reports that the attempt at `pos` completed its handshake. It wins;
    /// every other attempt in flight is to be cancelled.
    pub fn on_connected(&mut self, pos: usize) -> (step: RaceStep)
        requires
            old(self).wf(),
        ensures
            final(self).wf(),
            final(self)@ == old(self)@.after_success(pos),
            match step {
                RaceStep::Ignored => !old(self)@.expects(pos),
                RaceStep::Commit { winner, cancel } => old(self)@.expects(pos) && winner == pos
                    && cancel@ == spec_without(old(self)@.in_flight, pos),
                _ => false,
            },
    {
        match self.status {
            RaceStatus::Running => {},
            _ => {
                return RaceStep::Ignored;
            },
        }
        let idx = match self.find(pos) {
            Some(idx) => idx,
            None => {
                return RaceStep::Ignored;
            },
        };
        proof {
            lemma_without(self.in_flight@, idx as int);
        }
        let mut cancel: Vec<usize> = Vec::new();
        core::mem::swap(&mut cancel, &mut self.in_flight);
        cancel.remove(idx);
        self.status = RaceStatus::Won(pos);
        RaceStep::Commit { winner: pos, cancel }
    }

    /// How the race stands.
    pub fn status(&self) -> (s: RaceStatus)
        ensures
            s == self@.status,
    {
        self.status
    }

    /// The largest number of attempts in flight at once.
    pub fn parallelism(&self) -> (k: usize)
        ensures
            k == self@.k,
    {
        self.k
    }

    /// Whether an attempt has to await the upstream's acknowledgement
    /// before it may report success.
    pub fn wait_response(&self) -> (w: bool)
        ensures
            w == self@.wait_response,
    {
        self.wait_response
    }

    /// Number of attempts in flight.
    pub fn in_flight(&self) -> (n: usize)
        ensures
            n == self@.in_flight.len(),
    {
        self.in_flight.len()
    }

    /// Number of upstreams attempted so far.
    pub fn attempted(&self) -> (n: usize)
        ensures
            n == self@.next,
    {
        self.next
    }

    /// The upstream handle at position `pos` of the snapshot.
    pub fn server_at(&self, pos: usize) -> (res: Option<usize>)
        ensures
            res == if pos < self@.list.len() {
                Some(self@.list[pos as int])
            } else {
                None
            },
    {
        if pos < self.list.len() {
            Some(self.list[pos])
        } else {
            None
        }
    }

    /// The destination every attempt announces.
    pub fn dest(&self) -> (d: &Destination)
        ensures
            d@ == self@.dest,
    {
        &self.dest
    }

    /// The client's first bytes, which every attempt replays. All attempts
    /// borrow this one buffer.
    pub fn pending_data(&self) -> (res: Option<&[u8]>)
        ensures
            res is Some <==> self@.pending_data is Some,
            res is Some ==> res.unwrap()@ == self@.pending_data.unwrap(),
    {
        match &self.pending_data {
            Some(data) => Some(data.as_slice()),
            None => None,
        }
    }

    /// Ends the race: the destination and the handle of the winning
    /// upstream, or `None` if nothing has won.
    pub fn into_winner(self) -> (res: Option<(Destination, usize)>)
        requires
            self.wf(),
        ensures
            match res {
                Some((dest, server)) => exists|w: usize|
                    self@.status == RaceStatus::Won(w) && w < self@.list.len() && server
                        == self@.list[w as int] && dest@ == self@.dest,
                None => !(self@.status is Won),
            },
    {
        match self.status {
            RaceStatus::Won(w) => {
                let server: usize = self.list[w];
                Some((self.dest, server))
            },
            _ => None,
        }
    }
}

/// How long an attempt on an upstream may take, in milliseconds: three
/// seconds, or twice its recent latency where that is longer.
pub open spec fn spec_attempt_timeout_ms(delay_ms: Option<u64>) -> int {
    match delay_ms {
        Some(d) => if 2 * d > MIN_ATTEMPT_TIMEOUT_MS {
            if 2 * d > u64::MAX {
                u64::MAX as int
            } else {
                2 * d
            }
        } else {
            MIN_ATTEMPT_TIMEOUT_MS as int
        },
        None => MIN_ATTEMPT_TIMEOUT_MS as int,
    }
}

/// The time limit of one attempt, from the upstream's recent latency if the
/// monitor knows one. A doubled latency beyond `u64` is held at its top.
pub fn attempt_timeout_ms(delay_ms: Option<u64>) -> (t: u64)
    ensures
        t == spec_attempt_timeout_ms(delay_ms),
        t >= MIN_ATTEMPT_TIMEOUT_MS,
{
    match delay_ms {
        Some(d) => {
            let doubled: u64 = d.saturating_add(d);
            if doubled > MIN_ATTEMPT_TIMEOUT_MS {
                doubled
            } else {
                MIN_ATTEMPT_TIMEOUT_MS
            }
        },
        None => MIN_ATTEMPT_TIMEOUT_MS,
    }
}

/// How an attempt ended, as reported to the race.
#[derive(Clone, Copy, Debug, PartialEq, Eq, Structural)]
pub enum RaceEvent {
    Failed(usize),
    Connected(usize),
}

/// The race after one event.
pub open spec fn spec_apply(race: RaceView, event: RaceEvent) -> RaceView {
    match event {
        RaceEvent::Failed(pos) => race.after_failure(pos),
        RaceEvent::Connected(pos) => race.after_success(pos),
    }
}

/// The race after the events `events`, taken in order.
pub open spec fn spec_after(start: RaceView, events: Seq<RaceEvent>) -> RaceView
    decreases events.len(),
{
    if events.len() == 0 {
        start
    } else {
        spec_apply(spec_after(start, events.drop_last()), events.last())
    }
}

/// The positions whose attempts the caller was told to launch, in order:
/// the opening batch, then one for every failure that found an untried
/// upstream.
pub open spec fn spec_launched(start: RaceView, events: Seq<RaceEvent>) -> Seq<usize>
    decreases events.len(),
{
    if events.len() == 0 {
        start.in_flight
    } else {
        let before = spec_after(start, events.drop_last());
        let so_far = spec_launched(start, events.drop_last());
        match events.last() {
            RaceEvent::Failed(pos) => if before.expects(pos) && before.next < before.list.len() {
                so_far.push(before.next as usize)
            } else {
                so_far
            },
            RaceEvent::Connected(_) => so_far,
        }
    }
}

/// Whatever is reported to a freshly opened race, the upstreams are
/// launched in list order, each once and none skipped; a race that is lost
/// has launched every upstream of its snapshot; and a race that is won was
/// won by an attempt that was launched.
pub proof fn lemma_launched_in_order(start: RaceView, events: Seq<RaceEvent>)
    requires
        start.wf(),
        start.in_flight == first_positions(start.next),
    ensures
        spec_after(start, events).wf(),
        spec_after(start, events).list == start.list,
        spec_after(start, events).k == start.k,
        spec_launched(start, events) == first_positions(spec_after(start, events).next),
        spec_after(start, events).status == RaceStatus::AllDown ==> spec_launched(start, events)
            == first_positions(start.list.len()),
        spec_after(start, events).in_flight.len() <= start.k,
        match spec_after(start, events).status {
            RaceStatus::Won(w) => spec_launched(start, events).contains(w),
            _ => true,
        },
    decreases events.len(),
{
    if events.len() > 0 {
        let before = spec_after(start, events.drop_last());
        lemma_launched_in_order(start, events.drop_last());
        match events.last() {
            RaceEvent::Failed(pos) => {
                lemma_events_preserve(before, pos);
                assert(spec_launched(start, events) =~= first_positions(
                    spec_after(start, events).next,
                ));
            },
            RaceEvent::Connected(pos) => {
                lemma_events_preserve(before, pos);
            },
        }
    }
    match spec_after(start, events).status {
        RaceStatus::Won(w) => {
            assert(first_positions(spec_after(start, events).next)[w as int] == w);
        },
        _ => {},
    }
}

/// How many of `events` report the failure of an attempt that was in
/// flight when it was reported.
pub open spec fn spec_failed_attempts(start: RaceView, events: Seq<RaceEvent>) -> int
    decreases events.len(),
{
    if events.len() == 0 {
        0
    } else {
        let before = spec_after(start, events.drop_last());
        spec_failed_attempts(start, events.drop_last()) + match events.last() {
            RaceEvent::Failed(pos) => if before.expects(pos) {
                1int
            } else {
                0int
            },
            RaceEvent::Connected(_) => 0int,
        }
    }
}

/// Every event reports a failure.
pub open spec fn spec_all_failed(events: Seq<RaceEvent>) -> bool {
    forall|i: int| 0 <= i < events.len() ==> (#[trigger] events[i]) is Failed
}

/// When every upstream fails, whatever the parallelism and in whatever
/// order the failures come: the race is never won; every attempt launched
/// and no longer in flight has failed; and the race is lost exactly when
/// as many failures were taken in as the snapshot has upstreams, one for
/// each.
pub proof fn lemma_all_fail_all_down(start: RaceView, events: Seq<RaceEvent>)
    requires
        start.wf(),
        start.in_flight == first_positions(start.next),
        spec_all_failed(events),
    ensures
        !(spec_after(start, events).status is Won),
        spec_failed_attempts(start, events) == spec_after(start, events).next - spec_after(
            start,
            events,
        ).in_flight.len(),
        spec_after(start, events).status == RaceStatus::AllDown <==> spec_failed_attempts(
            start,
            events,
        ) == start.list.len(),
    decreases events.len(),
{
    lemma_launched_in_order(start, events);
    if events.len() > 0 {
        let before = spec_after(start, events.drop_last());
        assert(spec_all_failed(events.drop_last())) by {
            assert forall|i: int| 0 <= i < events.drop_last().len() implies (
            #[trigger] events.drop_last()[i]) is Failed by {
                assert(events.drop_last()[i] == events[i]);
            }
        }
        lemma_all_fail_all_down(start, events.drop_last());
        lemma_launched_in_order(start, events.drop_last());
        let last = events[events.len() - 1];
        assert(last == events.last());
        match last {
            RaceEvent::Failed(pos) => {
                if before.expects(pos) {
                    let idx = before.in_flight.index_of(pos);
                    lemma_without(before.in_flight, idx);
                    assert(before.in_flight.remove(idx).len() == before.in_flight.len() - 1);
                }
            },
            RaceEvent::Connected(_) => {},
        }
    }
}

/// With one lane the upstreams are tried one after the other in list
/// order, and the first that completes wins: when the race is won, every
/// upstream before the winner was tried and failed, and none after it was
/// tried.
pub proof fn lemma_one_lane_first_success(start: RaceView, events: Seq<RaceEvent>)
    requires
        start.wf(),
        start.in_flight == first_positions(start.next),
        start.k == 1,
    ensures
        spec_after(start, events).in_flight.len() <= 1,
        match spec_after(start, events).status {
            RaceStatus::Running => spec_after(start, events).in_flight == seq![
                (spec_after(start, events).next - 1) as usize,
            ] && spec_failed_attempts(start, events) == spec_after(start, events).next - 1,
            RaceStatus::Won(w) => spec_after(start, events).next == w + 1
                && spec_failed_attempts(start, events) == w,
            RaceStatus::AllDown => spec_failed_attempts(start, events) == start.list.len(),
        },
    decreases events.len(),
{
    lemma_launched_in_order(start, events);
    if events.len() == 0 {
        if start.status == RaceStatus::Running {
            assert(start.in_flight =~= seq![(start.next - 1) as usize]);
        }
    } else {
        let before = spec_after(start, events.drop_last());
        lemma_one_lane_first_success(start, events.drop_last());
        lemma_launched_in_order(start, events.drop_last());
        let last = events[events.len() - 1];
        assert(last == events.last());
        let pos = match last {
            RaceEvent::Failed(pos) => pos,
            RaceEvent::Connected(pos) => pos,
        };
        if before.expects(pos) {
            assert(before.in_flight[0] == (before.next - 1) as usize);
            let idx = before.in_flight.index_of(pos);
            assert(idx == 0);
            lemma_without(before.in_flight, idx);
            assert(before.in_flight.remove(idx).len() == 0);
            let after = spec_after(start, events);
            if after.status == RaceStatus::Running {
                assert(after.in_flight =~= seq![(after.next - 1) as usize]);
            }
        }
    }
}

/// A lost race has attempted every upstream of its snapshot.
pub proof fn lemma_all_down_attempted_all(race: RaceView)
    requires
        race.wf(),
        race.status == RaceStatus::AllDown,
    ensures
        forall|pos: int| 0 <= pos < race.list.len() ==> race.attempted(pos),
        race.in_flight.len() == 0,
{
}

/// Reporting events keeps a race well formed, never lets more than `k`
/// attempts fly, never forgets an attempted upstream and never reopens a
/// race that is over.
pub proof fn lemma_events_preserve(race: RaceView, pos: usize)
    requires
        race.wf(),
    ensures
        race.after_failure(pos).wf(),
        race.after_success(pos).wf(),
        race.after_failure(pos).in_flight.len() <= race.k,
        race.after_failure(pos).next >= race.next,
        race.status != RaceStatus::Running ==> race.after_failure(pos) == race
            && race.after_success(pos) == race,
{
    if race.expects(pos) {
        let idx = race.in_flight.index_of(pos);
        lemma_without(race.in_flight, idx);
        let rest = spec_without(race.in_flight, pos);
        assert forall|i: int| 0 <= i < rest.len() implies #[trigger] rest[i] < race.next by {
            assert(race.in_flight.contains(rest[i]));
        }
    }
}

} // verus!

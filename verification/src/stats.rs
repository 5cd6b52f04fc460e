//! Per-upstream accounting of connections and bytes.
use vstd::prelude::*;

verus! {

/// Bytes moved over one connection, seen from the client: `tx_bytes` went
/// from the client to the upstream, `rx_bytes` came back.
#[derive(Clone, Copy, Debug, PartialEq, Eq, Structural)]
pub struct Traffic {
    pub tx_bytes: u64,
    pub rx_bytes: u64,
}

/// Counters of one upstream. They only grow.
#[derive(Clone, Copy, Debug, PartialEq, Eq, Structural)]
pub struct ServerStats {
    opened: u64,
    closed: u64,
    errors: u64,
    traffic: Traffic,
}

/// `a + b`, held at the largest `u64`.
pub open spec fn spec_saturating_sum(a: int, b: int) -> int {
    if a + b > u64::MAX {
        u64::MAX as int
    } else {
        a + b
    }
}

/// Mathematical content of the counters of one upstream.
pub struct Ledger {
    pub opened: int,
    pub closed: int,
    pub errors: int,
    pub traffic: Traffic,
}

/// What can be recorded on the counters of an upstream.
pub enum StatsEvent {
    /// A connection through the upstream was committed.
    Opened,
    /// Bytes of a connection were accounted.
    Moved(Traffic),
    /// A connection ended, with or without an error.
    Closed { error: bool },
}

/// The sum of two amounts, each direction held at the largest `u64`.
pub open spec fn spec_add_traffic(a: Traffic, b: Traffic) -> Traffic {
    Traffic {
        tx_bytes: spec_saturating_sum(a.tx_bytes as int, b.tx_bytes as int) as u64,
        rx_bytes: spec_saturating_sum(a.rx_bytes as int, b.rx_bytes as int) as u64,
    }
}

/// The counters after one event.
pub open spec fn spec_record(ledger: Ledger, event: StatsEvent) -> Ledger {
    match event {
        StatsEvent::Opened => Ledger { opened: ledger.opened + 1, ..ledger },
        StatsEvent::Moved(amt) => Ledger {
            traffic: spec_add_traffic(ledger.traffic, amt),
            ..ledger
        },
        StatsEvent::Closed { error } => Ledger {
            closed: ledger.closed + 1,
            errors: ledger.errors + if error { 1int } else { 0int },
            ..ledger
        },
    }
}

/// The counters after the events `events`, taken in order.
pub open spec fn spec_recorded(start: Ledger, events: Seq<StatsEvent>) -> Ledger
    decreases events.len(),
{
    if events.len() == 0 {
        start
    } else {
        spec_record(spec_recorded(start, events.drop_last()), events.last())
    }
}

/// How many of `events` record an opening.
pub open spec fn spec_openings(events: Seq<StatsEvent>) -> int
    decreases events.len(),
{
    if events.len() == 0 {
        0
    } else {
        spec_openings(events.drop_last()) + if events.last() is Opened { 1int } else { 0int }
    }
}

/// How many of `events` record a closing.
pub open spec fn spec_closings(events: Seq<StatsEvent>) -> int
    decreases events.len(),
{
    if events.len() == 0 {
        0
    } else {
        spec_closings(events.drop_last()) + if events.last() is Closed { 1int } else { 0int }
    }
}

/// How many of `events` record a closing with an error.
pub open spec fn spec_failures(events: Seq<StatsEvent>) -> int
    decreases events.len(),
{
    if events.len() == 0 {
        0
    } else {
        spec_failures(events.drop_last()) + if events.last() == (StatsEvent::Closed {
            error: true,
        }) { 1int } else { 0int }
    }
}

impl Ledger {
    /// Connections open right now.
    pub open spec fn alive(&self) -> int {
        self.opened - self.closed
    }
}

impl ServerStats {
    /// The counters as numbers.
    pub open spec fn ledger(&self) -> Ledger {
        Ledger {
            opened: self.spec_opened(),
            closed: self.spec_closed(),
            errors: self.spec_errors(),
            traffic: self.spec_traffic(),
        }
    }

    /// No connection was closed that was not opened, and none failed that
    /// was not closed.
    pub closed spec fn wf(&self) -> bool {
        self.errors <= self.closed <= self.opened
    }

    /// Connections opened so far.
    pub closed spec fn spec_opened(&self) -> int {
        self.opened as int
    }

    /// Connections closed so far.
    pub closed spec fn spec_closed(&self) -> int {
        self.closed as int
    }

    /// Connections that closed with an error.
    pub closed spec fn spec_errors(&self) -> int {
        self.errors as int
    }

    /// Bytes accounted so far.
    pub closed spec fn spec_traffic(&self) -> Traffic {
        self.traffic
    }

    /// Connections open right now.
    pub open spec fn spec_alive(&self) -> int {
        self.spec_opened() - self.spec_closed()
    }

    /// Counters of an upstream that has served nothing yet.
    pub fn new() -> (s: ServerStats)
        ensures
            s.wf(),
            s.spec_opened() == 0,
            s.spec_closed() == 0,
            s.spec_errors() == 0,
            s.spec_traffic() == (Traffic { tx_bytes: 0, rx_bytes: 0 }),
    {
        ServerStats { opened: 0, closed: 0, errors: 0, traffic: Traffic { tx_bytes: 0, rx_bytes: 0 } }
    }

    /// Whether one more connection can still be counted.
    pub fn can_open(&self) -> (b: bool)
        ensures
            b == (self.spec_opened() < u64::MAX),
    {
        self.opened < u64::MAX
    }

    /// Records that a connection through this upstream was committed.
    pub fn update_stats_conn_open(&mut self)
        requires
            old(self).wf(),
            old(self).spec_opened() < u64::MAX,
        ensures
            final(self).wf(),
            final(self).spec_opened() == old(self).spec_opened() + 1,
            final(self).spec_closed() == old(self).spec_closed(),
            final(self).spec_errors() == old(self).spec_errors(),
            final(self).spec_traffic() == old(self).spec_traffic(),
            final(self).ledger() == spec_record(old(self).ledger(), StatsEvent::Opened),
    {
        self.opened = self.opened + 1;
    }

    /// Records that an open connection ended, with or without an error.
    pub fn update_stats_conn_close(&mut self, error: bool)
        requires
            old(self).wf(),
            old(self).spec_alive() > 0,
        ensures
            final(self).wf(),
            final(self).spec_opened() == old(self).spec_opened(),
            final(self).spec_closed() == old(self).spec_closed() + 1,
            final(self).spec_errors() == old(self).spec_errors() + if error { 1int } else { 0int },
            final(self).spec_traffic() == old(self).spec_traffic(),
            final(self).ledger() == spec_record(old(self).ledger(), StatsEvent::Closed { error }),
    {
        self.closed = self.closed + 1;
        if error {
            self.errors = self.errors + 1;
        }
    }

    /// Adds the bytes of one connection to the totals, which stay at the
    /// largest `u64` once they reach it.
    pub fn add_traffic(&mut self, amt: Traffic)
        requires
            old(self).wf(),
        ensures
            final(self).wf(),
            final(self).spec_opened() == old(self).spec_opened(),
            final(self).spec_closed() == old(self).spec_closed(),
            final(self).spec_errors() == old(self).spec_errors(),
            final(self).spec_traffic().tx_bytes as int == spec_saturating_sum(
                old(self).spec_traffic().tx_bytes as int,
                amt.tx_bytes as int,
            ),
            final(self).spec_traffic().rx_bytes as int == spec_saturating_sum(
                old(self).spec_traffic().rx_bytes as int,
                amt.rx_bytes as int,
            ),
            final(self).ledger() == spec_record(old(self).ledger(), StatsEvent::Moved(amt)),
    {
        self.traffic.tx_bytes = self.traffic.tx_bytes.saturating_add(amt.tx_bytes);
        self.traffic.rx_bytes = self.traffic.rx_bytes.saturating_add(amt.rx_bytes);
    }

    /// Connections opened so far.
    pub fn conn_total(&self) -> (n: u64)
        ensures
            n == self.spec_opened(),
    {
        self.opened
    }

    /// Connections open right now.
    pub fn conn_alive(&self) -> (n: u64)
        requires
            self.wf(),
        ensures
            n == self.spec_alive(),
    {
        self.opened - self.closed
    }

    /// Connections closed so far.
    pub fn conn_closed(&self) -> (n: u64)
        ensures
            n == self.spec_closed(),
    {
        self.closed
    }

    /// Connections that closed with an error.
    pub fn conn_error(&self) -> (n: u64)
        ensures
            n == self.spec_errors(),
    {
        self.errors
    }

    /// Bytes accounted so far.
    pub fn traffic(&self) -> (t: Traffic)
        ensures
            t == self.spec_traffic(),
    {
        self.traffic
    }
}

/// The counters count: after any events, the openings, closings and
/// failures recorded are those that happened. So whenever as many
/// connections are open after the events as were before, in particular
/// whenever none is open at either end, as many closings were recorded as
/// openings.
pub proof fn lemma_openings_match_closings(start: Ledger, events: Seq<StatsEvent>)
    ensures
        spec_recorded(start, events).opened == start.opened + spec_openings(events),
        spec_recorded(start, events).closed == start.closed + spec_closings(events),
        spec_recorded(start, events).errors == start.errors + spec_failures(events),
        spec_recorded(start, events).alive() == start.alive() + spec_openings(events)
            - spec_closings(events),
        spec_recorded(start, events).alive() == start.alive() ==> spec_openings(events)
            == spec_closings(events),
        0 <= spec_failures(events) <= spec_closings(events),
    decreases events.len(),
{
    if events.len() > 0 {
        lemma_openings_match_closings(start, events.drop_last());
    }
}

} // verus!

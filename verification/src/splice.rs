//! The bidirectional copy between a client and its upstream.
//!
//! The pipe decides and counts; the caller reads into the shared scratch
//! buffer, writes from it, and shuts sockets down as told.
use crate::client::PipeOutcome;
use crate::stats::{spec_saturating_sum, Traffic};
use vstd::prelude::*;

verus! {

/// One end of a spliced pair.
#[derive(Clone, Copy, Debug, PartialEq, Eq, Structural)]
pub enum Side {
    Client,
    Upstream,
}

/// What the caller has to do after a read.
#[derive(Clone, Copy, Debug, PartialEq, Eq, Structural)]
pub enum PipeAction {
    /// Write the `len` bytes just read to `to`.
    Forward { to: Side, len: usize },
    /// Shut down the write half of `to` and keep draining the other
    /// direction.
    HalfClose { to: Side },
    /// Shut down the write half of `to`; both directions have ended.
    Finish { to: Side, outcome: PipeOutcome },
    /// Close both sockets; the splice failed.
    Abort { outcome: PipeOutcome },
    /// The event concerns a direction that has ended; nothing changed.
    Ignored,
}

/// The state of a splice.
#[derive(Clone, Copy, Debug, PartialEq, Eq, Structural)]
pub struct Pipe {
    pub client_eof: bool,
    pub upstream_eof: bool,
    pub failed: bool,
    pub amt: Traffic,
}

/// The other end.
pub open spec fn spec_peer(side: Side) -> Side {
    match side {
        Side::Client => Side::Upstream,
        Side::Upstream => Side::Client,
    }
}

impl Pipe {
    /// Whether the splice is over.
    pub open spec fn is_over(&self) -> bool {
        self.failed || (self.client_eof && self.upstream_eof)
    }

    /// Whether `side` has reported its end of file.
    pub open spec fn ended(&self, side: Side) -> bool {
        match side {
            Side::Client => self.client_eof,
            Side::Upstream => self.upstream_eof,
        }
    }

    /// The counters after `len` more bytes came from `from`: bytes from the
    /// client count as sent, bytes from the upstream as received.
    pub open spec fn spec_count(&self, from: Side, len: usize) -> Traffic {
        match from {
            Side::Client => Traffic {
                tx_bytes: spec_saturating_sum(self.amt.tx_bytes as int, len as int) as u64,
                rx_bytes: self.amt.rx_bytes,
            },
            Side::Upstream => Traffic {
                tx_bytes: self.amt.tx_bytes,
                rx_bytes: spec_saturating_sum(self.amt.rx_bytes as int, len as int) as u64,
            },
        }
    }

    /// The pipe and the action that follow a read of `len` bytes from
    /// `from`, where a read of no bytes is the end of that direction.
    pub open spec fn spec_on_read(&self, from: Side, len: usize) -> (Pipe, PipeAction) {
        if self.is_over() || self.ended(from) {
            (*self, PipeAction::Ignored)
        } else if len > 0 {
            (
                Pipe { amt: self.spec_count(from, len), ..*self },
                PipeAction::Forward { to: spec_peer(from), len },
            )
        } else {
            let next = match from {
                Side::Client => Pipe { client_eof: true, ..*self },
                Side::Upstream => Pipe { upstream_eof: true, ..*self },
            };
            if self.ended(spec_peer(from)) {
                (
                    next,
                    PipeAction::Finish {
                        to: spec_peer(from),
                        outcome: PipeOutcome { amt: self.amt, error: false },
                    },
                )
            } else {
                (next, PipeAction::HalfClose { to: spec_peer(from) })
            }
        }
    }

    /// The pipe and the action that follow an I/O error on either side.
    pub open spec fn spec_on_error(&self) -> (Pipe, PipeAction) {
        if self.is_over() {
            (*self, PipeAction::Ignored)
        } else {
            (
                Pipe { failed: true, ..*self },
                PipeAction::Abort { outcome: PipeOutcome { amt: self.amt, error: true } },
            )
        }
    }

    /// A splice that has moved nothing yet.
    pub fn new() -> (p: Pipe)
        ensures
            p == (Pipe {
                client_eof: false,
                upstream_eof: false,
                failed: false,
                amt: Traffic { tx_bytes: 0, rx_bytes: 0 },
            }),
    {
        Pipe {
            client_eof: false,
            upstream_eof: false,
            failed: false,
            amt: Traffic { tx_bytes: 0, rx_bytes: 0 },
        }
    }

    /// The other end.
    pub fn peer(side: Side) -> (p: Side)
        ensures
            p == spec_peer(side),
    {
        match side {
            Side::Client => Side::Upstream,
            Side::Upstream => Side::Client,
        }
    }

    /// Whether the splice is over.
    pub fn over(&self) -> (b: bool)
        ensures
            b == self.is_over(),
    {
        self.failed || (self.client_eof && self.upstream_eof)
    }

    /// Takes in a read of `len` bytes from `from`; see
    /// [`Pipe::spec_on_read`].
    pub fn on_read(&mut self, from: Side, len: usize) -> (action: PipeAction)
        ensures
            (*final(self), action) == old(self).spec_on_read(from, len),
    {
        if self.over() {
            return PipeAction::Ignored;
        }
        let ended = match from {
            Side::Client => self.client_eof,
            Side::Upstream => self.upstream_eof,
        };
        if ended {
            return PipeAction::Ignored;
        }
        let to = Pipe::peer(from);
        if len > 0 {
            match from {
                Side::Client => {
                    self.amt.tx_bytes = self.amt.tx_bytes.saturating_add(len as u64);
                },
                Side::Upstream => {
                    self.amt.rx_bytes = self.amt.rx_bytes.saturating_add(len as u64);
                },
            }
            PipeAction::Forward { to, len }
        } else {
            let peer_ended = match from {
                Side::Client => {
                    self.client_eof = true;
                    self.upstream_eof
                },
                Side::Upstream => {
                    self.upstream_eof = true;
                    self.client_eof
                },
            };
            if peer_ended {
                PipeAction::Finish { to, outcome: PipeOutcome { amt: self.amt, error: false } }
            } else {
                PipeAction::HalfClose { to }
            }
        }
    }

    /// Takes in an I/O error on either side; see [`Pipe::spec_on_error`].
    pub fn on_error(&mut self) -> (action: PipeAction)
        ensures
            (*final(self), action) == old(self).spec_on_error(),
    {
        if self.over() {
            return PipeAction::Ignored;
        }
        self.failed = true;
        PipeAction::Abort { outcome: PipeOutcome { amt: self.amt, error: true } }
    }

    /// Bytes moved so far.
    pub fn amount(&self) -> (t: Traffic)
        ensures
            t == self.amt,
    {
        self.amt
    }
}

/// Something that happens to a spliced pair, with the bytes that a read
/// brought. An empty read is the end of that direction.
pub enum PipeEvent {
    Read { from: Side, data: Seq<u8> },
    Error,
}

/// The pipe before anything happened.
pub open spec fn spec_fresh() -> Pipe {
    Pipe {
        client_eof: false,
        upstream_eof: false,
        failed: false,
        amt: Traffic { tx_bytes: 0, rx_bytes: 0 },
    }
}

/// The pipe and the action that follow one event.
pub open spec fn spec_apply(pipe: Pipe, event: PipeEvent) -> (Pipe, PipeAction) {
    match event {
        PipeEvent::Read { from, data } => pipe.spec_on_read(from, data.len() as usize),
        PipeEvent::Error => pipe.spec_on_error(),
    }
}

/// The pipe after the events `events`, taken in order.
pub open spec fn spec_after(events: Seq<PipeEvent>) -> Pipe
    decreases events.len(),
{
    if events.len() == 0 {
        spec_fresh()
    } else {
        spec_apply(spec_after(events.drop_last()), events.last()).0
    }
}

/// The bytes that the caller was told to write to `to` in the course of
/// `events`, in order.
pub open spec fn spec_delivered(events: Seq<PipeEvent>, to: Side) -> Seq<u8>
    decreases events.len(),
{
    if events.len() == 0 {
        Seq::empty()
    } else {
        let so_far = spec_delivered(events.drop_last(), to);
        match (events.last(), spec_apply(spec_after(events.drop_last()), events.last()).1) {
            (PipeEvent::Read { from, data }, PipeAction::Forward { to: target, len }) => if target
                == to {
                so_far + data
            } else {
                so_far
            },
            _ => so_far,
        }
    }
}

/// Whether `from` has reported its end in the course of `events`.
pub open spec fn spec_saw_end(events: Seq<PipeEvent>, from: Side) -> bool
    decreases events.len(),
{
    events.len() > 0 && (spec_saw_end(events.drop_last(), from) || events.last() == (
        PipeEvent::Read { from, data: Seq::<u8>::empty() }
    ))
}

/// The bytes that `from` sent before its end in the course of `events`.
pub open spec fn spec_sent(events: Seq<PipeEvent>, from: Side) -> Seq<u8>
    decreases events.len(),
{
    if events.len() == 0 {
        Seq::empty()
    } else {
        let so_far = spec_sent(events.drop_last(), from);
        match events.last() {
            PipeEvent::Read { from: side, data } => if side == from && !spec_saw_end(
                events.drop_last(),
                from,
            ) {
                so_far + data
            } else {
                so_far
            },
            PipeEvent::Error => so_far,
        }
    }
}

/// No event is an error, and every read fits the machine.
pub open spec fn spec_clean(events: Seq<PipeEvent>) -> bool {
    forall|i: int|
        0 <= i < events.len() ==> match #[trigger] events[i] {
            PipeEvent::Read { from, data } => data.len() <= usize::MAX,
            PipeEvent::Error => false,
        }
}

/// `n`, held at the largest `u64`.
pub open spec fn spec_clamp(n: int) -> int {
    if n > u64::MAX {
        u64::MAX as int
    } else {
        n
    }
}

/// Without errors each end is given exactly what the other sent, in order
/// and whole: the upstream observes the client's bytes, the client the
/// upstream's. The counters hold the lengths of the two streams, held at
/// the largest `u64`.
pub proof fn lemma_splice_is_faithful(events: Seq<PipeEvent>, from: Side)
    requires
        spec_clean(events),
    ensures
        spec_delivered(events, spec_peer(from)) == spec_sent(events, from),
        !spec_after(events).failed,
        spec_after(events).ended(from) == spec_saw_end(events, from),
        spec_after(events).amt.tx_bytes == spec_clamp(spec_sent(events, Side::Client).len() as int),
        spec_after(events).amt.rx_bytes == spec_clamp(
            spec_sent(events, Side::Upstream).len() as int,
        ),
    decreases events.len(),
{
    if events.len() > 0 {
        let before = events.drop_last();
        assert(spec_clean(before)) by {
            assert forall|i: int| 0 <= i < before.len() implies match #[trigger] before[i] {
                PipeEvent::Read { from, data } => data.len() <= usize::MAX,
                PipeEvent::Error => false,
            } by {
                assert(before[i] == events[i]);
            }
        }
        lemma_splice_is_faithful(before, from);
        lemma_splice_is_faithful(before, Side::Client);
        lemma_splice_is_faithful(before, Side::Upstream);
        let last = events[events.len() - 1];
        assert(last == events.last());
        match last {
            PipeEvent::Read { from: side, data } => {
                if data.len() == 0 {
                    assert(data =~= Seq::<u8>::empty());
                    assert(spec_sent(before, from) + data =~= spec_sent(before, from));
                    assert(spec_sent(before, Side::Client) + data =~= spec_sent(
                        before,
                        Side::Client,
                    ));
                    assert(spec_sent(before, Side::Upstream) + data =~= spec_sent(
                        before,
                        Side::Upstream,
                    ));
                }
            },
            PipeEvent::Error => {},
        }
    }
}

/// What the upstream is given after the handshake request: the client's
/// first bytes that were replayed to it, if any, then what the splice
/// forwards.
pub open spec fn spec_upstream_payload(pending_data: Option<Seq<u8>>, events: Seq<PipeEvent>) -> Seq<
    u8,
> {
    (match pending_data {
        Some(data) => data,
        None => Seq::<u8>::empty(),
    }) + spec_delivered(events, Side::Upstream)
}

/// Without errors the upstream's payload is the replayed bytes followed by
/// what the client sent afterwards, whole and in order: nothing overtakes
/// the replayed bytes, and where none were replayed the payload is what
/// the client sent, however late.
pub proof fn lemma_upstream_payload(pending_data: Option<Seq<u8>>, events: Seq<PipeEvent>)
    requires
        spec_clean(events),
    ensures
        pending_data is Some ==> spec_upstream_payload(pending_data, events)
            == pending_data.unwrap() + spec_sent(events, Side::Client),
        pending_data is Some ==> pending_data.unwrap().is_prefix_of(
            spec_upstream_payload(pending_data, events),
        ),
        pending_data is None ==> spec_upstream_payload(pending_data, events) == spec_sent(
            events,
            Side::Client,
        ),
{
    lemma_splice_is_faithful(events, Side::Client);
    match pending_data {
        Some(data) => {
            let all = spec_upstream_payload(pending_data, events);
            assert(all.subrange(0, data.len() as int) =~= data);
        },
        None => {
            assert(spec_upstream_payload(pending_data, events) =~= spec_sent(
                events,
                Side::Client,
            ));
        },
    }
}

/// An error ends a splice that is under way with the amounts moved until
/// then: the lengths of what the two sides had sent, each held at the
/// largest `u64`.
pub proof fn lemma_error_keeps_amounts(events: Seq<PipeEvent>)
    requires
        spec_clean(events),
        !spec_after(events).is_over(),
    ensures
        spec_after(events).spec_on_error().1 == (PipeAction::Abort {
            outcome: PipeOutcome {
                amt: Traffic {
                    tx_bytes: spec_clamp(spec_sent(events, Side::Client).len() as int) as u64,
                    rx_bytes: spec_clamp(spec_sent(events, Side::Upstream).len() as int) as u64,
                },
                error: true,
            },
        }),
        spec_after(events).spec_on_error().0.is_over(),
{
    lemma_splice_is_faithful(events, Side::Client);
}

/// A splice reports its end once: after the end, no event changes it or
/// asks for anything.
pub proof fn lemma_over_is_final(pipe: Pipe, from: Side, len: usize)
    requires
        pipe.is_over(),
    ensures
        pipe.spec_on_read(from, len) == (pipe, PipeAction::Ignored),
        pipe.spec_on_error() == (pipe, PipeAction::Ignored),
{
}

/// Without errors, every chunk read on one side is forwarded whole to the
/// other and counted, as long as the counter has room: what the client sent
/// is what the upstream is given, and the other way round.
pub proof fn lemma_forward_whole(pipe: Pipe, from: Side, len: usize)
    requires
        !pipe.is_over(),
        !pipe.ended(from),
        len > 0,
    ensures
        pipe.spec_on_read(from, len).1 == (PipeAction::Forward { to: spec_peer(from), len }),
        from == Side::Client && pipe.amt.tx_bytes + len <= u64::MAX ==> pipe.spec_on_read(
            from,
            len,
        ).0.amt.tx_bytes == pipe.amt.tx_bytes + len,
        from == Side::Upstream && pipe.amt.rx_bytes + len <= u64::MAX ==> pipe.spec_on_read(
            from,
            len,
        ).0.amt.rx_bytes == pipe.amt.rx_bytes + len,
{
}

} // verus!

//! One attempt to reach the destination through one upstream.
//!
//! The attempt decides the order of the steps; the caller performs them on
//! the socket and reports how each went.
use vstd::prelude::*;

verus! {

/// Where an attempt stands.
#[derive(Clone, Copy, Debug, PartialEq, Eq, Structural)]
pub enum AttemptPhase {
    /// The TCP connection to the upstream is being opened.
    Connecting,
    /// The handshake request is being written.
    Handshaking,
    /// The client's first bytes are being written after the request.
    Replaying,
    /// The upstream's acknowledgement is awaited.
    AwaitingAck,
    /// The tunnel stands.
    Established,
    /// The attempt is over without a tunnel.
    Failed,
}

/// What the caller observed on the attempt's socket.
#[derive(Clone, Copy, Debug, PartialEq, Eq, Structural)]
pub enum AttemptEvent {
    /// The TCP connection is open.
    Connected,
    /// The handshake request has been flushed.
    HandshakeSent,
    /// The client's first bytes have been flushed.
    PrefixSent,
    /// The upstream accepted the request.
    Acknowledged,
    /// Refused or timed-out connect, wire error, rejection by the upstream,
    /// or an I/O error while writing.
    Broken,
}

/// What the caller has to do next.
#[derive(Clone, Copy, Debug, PartialEq, Eq, Structural)]
pub enum AttemptAction {
    /// Write the handshake request that announces the destination.
    SendHandshake,
    /// Write the client's first bytes.
    SendPrefix,
    /// Read the upstream's acknowledgement.
    AwaitAck,
    /// Report the socket to the race as connected.
    ReportSuccess,
    /// Close the socket and report the attempt to the race as failed.
    ReportFailure,
    /// The attempt is over; nothing changed.
    Ignored,
}

/// The state of one attempt.
#[derive(Clone, Copy, Debug, PartialEq, Eq, Structural)]
pub struct Attempt {
    pub has_prefix: bool,
    pub wait_response: bool,
    pub phase: AttemptPhase,
    pub prefix_sent: bool,
}

/// The phase that follows once everything to be written has been flushed.
pub open spec fn spec_after_writes(wait_response: bool) -> (AttemptPhase, AttemptAction) {
    if wait_response {
        (AttemptPhase::AwaitingAck, AttemptAction::AwaitAck)
    } else {
        (AttemptPhase::Established, AttemptAction::ReportSuccess)
    }
}

impl Attempt {
    /// Whether the attempt is over.
    pub open spec fn is_over(&self) -> bool {
        self.phase == AttemptPhase::Established || self.phase == AttemptPhase::Failed
    }

    /// What holds of every attempt: the first bytes are marked as sent only
    /// if there are some, they have been sent before an acknowledgement is
    /// awaited or the tunnel stands, and an acknowledgement is awaited only
    /// where the caller asked for it.
    pub open spec fn wf(&self) -> bool {
        &&& self.prefix_sent ==> self.has_prefix
        &&& (self.phase == AttemptPhase::Connecting || self.phase == AttemptPhase::Handshaking
            || self.phase == AttemptPhase::Replaying) ==> !self.prefix_sent
        &&& (self.phase == AttemptPhase::AwaitingAck || self.phase == AttemptPhase::Established)
            ==> (self.has_prefix ==> self.prefix_sent)
        &&& self.phase == AttemptPhase::AwaitingAck ==> self.wait_response
        &&& self.phase == AttemptPhase::Replaying ==> self.has_prefix
    }

    /// The attempt and the action that follow `event`. An event that does
    /// not belong to the current phase breaks the attempt.
    pub open spec fn spec_step(&self, event: AttemptEvent) -> (Attempt, AttemptAction) {
        if self.is_over() {
            (*self, AttemptAction::Ignored)
        } else if self.phase == AttemptPhase::Connecting && event == AttemptEvent::Connected {
            (Attempt { phase: AttemptPhase::Handshaking, ..*self }, AttemptAction::SendHandshake)
        } else if self.phase == AttemptPhase::Handshaking && event == AttemptEvent::HandshakeSent {
            if self.has_prefix {
                (Attempt { phase: AttemptPhase::Replaying, ..*self }, AttemptAction::SendPrefix)
            } else {
                (
                    Attempt { phase: spec_after_writes(self.wait_response).0, ..*self },
                    spec_after_writes(self.wait_response).1,
                )
            }
        } else if self.phase == AttemptPhase::Replaying && event == AttemptEvent::PrefixSent {
            (
                Attempt {
                    phase: spec_after_writes(self.wait_response).0,
                    prefix_sent: true,
                    ..*self
                },
                spec_after_writes(self.wait_response).1,
            )
        } else if self.phase == AttemptPhase::AwaitingAck && event == AttemptEvent::Acknowledged {
            (Attempt { phase: AttemptPhase::Established, ..*self }, AttemptAction::ReportSuccess)
        } else {
            (Attempt { phase: AttemptPhase::Failed, ..*self }, AttemptAction::ReportFailure)
        }
    }

    /// A fresh attempt; the caller opens the TCP connection.
    pub fn new(has_prefix: bool, wait_response: bool) -> (a: Attempt)
        ensures
            a.wf(),
            a == (Attempt {
                has_prefix,
                wait_response,
                phase: AttemptPhase::Connecting,
                prefix_sent: false,
            }),
    {
        Attempt { has_prefix, wait_response, phase: AttemptPhase::Connecting, prefix_sent: false }
    }

    /// Takes in `event` and says what to do next.
    pub fn step(&mut self, event: AttemptEvent) -> (action: AttemptAction)
        requires
            old(self).wf(),
        ensures
            final(self).wf(),
            (*final(self), action) == old(self).spec_step(event),
    {
        match (self.phase, event) {
            (AttemptPhase::Established, _) | (AttemptPhase::Failed, _) => AttemptAction::Ignored,
            (AttemptPhase::Connecting, AttemptEvent::Connected) => {
                self.phase = AttemptPhase::Handshaking;
                AttemptAction::SendHandshake
            },
            (AttemptPhase::Handshaking, AttemptEvent::HandshakeSent) => {
                if self.has_prefix {
                    self.phase = AttemptPhase::Replaying;
                    AttemptAction::SendPrefix
                } else {
                    self.after_writes()
                }
            },
            (AttemptPhase::Replaying, AttemptEvent::PrefixSent) => {
                self.prefix_sent = true;
                self.after_writes()
            },
            (AttemptPhase::AwaitingAck, AttemptEvent::Acknowledged) => {
                self.phase = AttemptPhase::Established;
                AttemptAction::ReportSuccess
            },
            _ => {
                self.phase = AttemptPhase::Failed;
                AttemptAction::ReportFailure
            },
        }
    }

    fn after_writes(&mut self) -> (action: AttemptAction)
        ensures
            (final(self).phase, action) == spec_after_writes(old(self).wait_response),
            final(self).has_prefix == old(self).has_prefix,
            final(self).wait_response == old(self).wait_response,
            final(self).prefix_sent == old(self).prefix_sent,
    {
        if self.wait_response {
            self.phase = AttemptPhase::AwaitingAck;
            AttemptAction::AwaitAck
        } else {
            self.phase = AttemptPhase::Established;
            AttemptAction::ReportSuccess
        }
    }

    /// Whether the tunnel stands.
    pub fn is_established(&self) -> (b: bool)
        ensures
            b == (self.phase == AttemptPhase::Established),
    {
        match self.phase {
            AttemptPhase::Established => true,
            _ => false,
        }
    }
}

/// The attempt after the events `events`, taken in order.
pub open spec fn spec_run(start: Attempt, events: Seq<AttemptEvent>) -> Attempt
    decreases events.len(),
{
    if events.len() == 0 {
        start
    } else {
        spec_run(start, events.drop_last()).spec_step(events.last()).0
    }
}

/// A fresh attempt.
pub open spec fn spec_fresh(has_prefix: bool, wait_response: bool) -> Attempt {
    Attempt { has_prefix, wait_response, phase: AttemptPhase::Connecting, prefix_sent: false }
}

/// What the caller was told to do in the course of `events`, in order.
pub open spec fn spec_actions(start: Attempt, events: Seq<AttemptEvent>) -> Seq<AttemptAction>
    decreases events.len(),
{
    if events.len() == 0 {
        Seq::empty()
    } else {
        let so_far = spec_actions(start, events.drop_last());
        let action = spec_run(start, events.drop_last()).spec_step(events.last()).1;
        if action == AttemptAction::Ignored {
            so_far
        } else {
            so_far.push(action)
        }
    }
}

/// What an attempt that has not failed has asked for by the time it
/// reached its phase: the handshake request, then the client's first bytes
/// if there are any, then the acknowledgement if it is to be awaited, then
/// the report of success.
pub open spec fn spec_script(a: Attempt) -> Seq<AttemptAction> {
    let request = seq![AttemptAction::SendHandshake];
    let writes = if a.has_prefix {
        request.push(AttemptAction::SendPrefix)
    } else {
        request
    };
    let asked = if a.wait_response {
        writes.push(AttemptAction::AwaitAck)
    } else {
        writes
    };
    match a.phase {
        AttemptPhase::Connecting => Seq::empty(),
        AttemptPhase::Handshaking => request,
        AttemptPhase::Replaying => writes,
        AttemptPhase::AwaitingAck => asked,
        AttemptPhase::Established => asked.push(AttemptAction::ReportSuccess),
        AttemptPhase::Failed => Seq::empty(),
    }
}

/// An attempt that has not failed did exactly the steps of its script, in
/// their order. So when a tunnel stands, the upstream was sent the
/// handshake request, then the client's first bytes, and nothing else.
pub proof fn lemma_attempt_follows_script(
    has_prefix: bool,
    wait_response: bool,
    events: Seq<AttemptEvent>,
)
    requires
        spec_run(spec_fresh(has_prefix, wait_response), events).phase != AttemptPhase::Failed,
    ensures
        spec_actions(spec_fresh(has_prefix, wait_response), events) == spec_script(
            spec_run(spec_fresh(has_prefix, wait_response), events),
        ),
    decreases events.len(),
{
    let start = spec_fresh(has_prefix, wait_response);
    if events.len() > 0 {
        let before = spec_run(start, events.drop_last());
        lemma_run_wf(has_prefix, wait_response, events.drop_last());
        lemma_attempt_follows_script(has_prefix, wait_response, events.drop_last());
        assert(spec_actions(start, events) =~= spec_script(spec_run(start, events)));
    } else {
        assert(spec_actions(start, events) =~= spec_script(start));
    }
}

/// Whatever events arrive, an attempt stays well formed and keeps its
/// inputs.
pub proof fn lemma_run_wf(has_prefix: bool, wait_response: bool, events: Seq<AttemptEvent>)
    ensures
        spec_run(spec_fresh(has_prefix, wait_response), events).wf(),
        spec_run(spec_fresh(has_prefix, wait_response), events).has_prefix == has_prefix,
        spec_run(spec_fresh(has_prefix, wait_response), events).wait_response == wait_response,
    decreases events.len(),
{
    if events.len() > 0 {
        lemma_run_wf(has_prefix, wait_response, events.drop_last());
    }
}

/// However an attempt came to stand, the client's first bytes, if there
/// were any, went to the upstream before it did: right after the handshake
/// request and ahead of everything the splice will forward.
pub proof fn lemma_established_after_replay(
    has_prefix: bool,
    wait_response: bool,
    events: Seq<AttemptEvent>,
)
    requires
        has_prefix,
        spec_run(spec_fresh(has_prefix, wait_response), events).phase == AttemptPhase::Established,
    ensures
        spec_run(spec_fresh(has_prefix, wait_response), events).prefix_sent,
        exists|i: int| 0 <= i < events.len() && events[i] == AttemptEvent::PrefixSent,
{
    lemma_run_wf(has_prefix, wait_response, events);
    lemma_sent_means_event(has_prefix, wait_response, events);
}

proof fn lemma_sent_means_event(has_prefix: bool, wait_response: bool, events: Seq<AttemptEvent>)
    requires
        spec_run(spec_fresh(has_prefix, wait_response), events).prefix_sent,
    ensures
        exists|i: int| 0 <= i < events.len() && events[i] == AttemptEvent::PrefixSent,
    decreases events.len(),
{
    let start = spec_fresh(has_prefix, wait_response);
    if events.len() > 0 {
        let before = spec_run(start, events.drop_last());
        if before.prefix_sent {
            lemma_sent_means_event(has_prefix, wait_response, events.drop_last());
            let i = choose|i: int|
                0 <= i < events.drop_last().len() && events.drop_last()[i]
                    == AttemptEvent::PrefixSent;
            assert(events[i] == AttemptEvent::PrefixSent);
        } else {
            assert(events[events.len() - 1] == AttemptEvent::PrefixSent);
        }
    }
}

} // verus!

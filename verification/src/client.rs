//! The stages a client passes from accept to splice.
//!
//! A [`NewClient`] knows where its connection was headed. Its first bytes
//! turn it into a [`NewClientWithData`], which may have learnt a host name
//! and whether hedging is safe. Either one opens a [`Race`]; the winner of
//! the race makes a [`ConnectedClient`], whose service is bracketed by the
//! accounting of its upstream.
use crate::dest::{
    original_dest, spec_original_dest, spec_redirect, Destination, DestinationView, NoRedirection,
    RawAddrV4, RawAddrV6,
};
use crate::race::{first_positions, spec_min, Race, RaceStatus};
use crate::stats::{spec_add_traffic, spec_record, Ledger, ServerStats, StatsEvent, Traffic};
use crate::tls::{parse_client_hello, spec_parse_client_hello, HelloView};
use vstd::prelude::*;

verus! {

/// Size of the buffer the client's first bytes are read into.
pub const HELLO_BUFFER_SIZE: usize = 2048;

/// How long the first read may take, in milliseconds.
pub const HELLO_TIMEOUT_MS: u64 = 500;

/// Idle time before keepalive probes on a spliced pair, in seconds.
pub const KEEPALIVE_SECS: u64 = 300;

/// A client whose original destination is known.
#[derive(Debug)]
pub struct NewClient {
    pub dest: Destination,
    list: Vec<usize>,
}

/// A client whose first bytes, if any, have been read.
#[derive(Debug)]
pub struct NewClientWithData {
    client: NewClient,
    pending_data: Option<Vec<u8>>,
    allow_parallel: bool,
}

/// A client committed to one upstream. It remembers how many of its bytes
/// were replayed to the upstream before the splice, so that they are
/// accounted with the rest.
#[derive(Debug)]
pub struct ConnectedClient {
    dest: Destination,
    server: usize,
    replayed: usize,
}

/// A connected client whose opening has been accounted and whose closing is
/// still owed.
#[derive(Debug)]
pub struct Serving {
    dest: Destination,
    server: usize,
    replayed: usize,
}

/// How the splice of a connected pair ended.
#[derive(Clone, Copy, Debug, PartialEq, Eq, Structural)]
pub struct PipeOutcome {
    pub amt: Traffic,
    pub error: bool,
}

/// Mathematical content of a [`NewClientWithData`].
pub struct ClientView {
    pub dest: DestinationView,
    pub list: Seq<usize>,
    pub pending_data: Option<Seq<u8>>,
    pub allow_parallel: bool,
}

/// The first `len` bytes of `data`, or all of it if it is shorter.
pub open spec fn spec_prefix(data: Seq<u8>, len: nat) -> Seq<u8> {
    if len <= data.len() {
        data.subrange(0, len as int)
    } else {
        data
    }
}

/// The server name in a parse result, if it succeeded and found one.
pub open spec fn spec_found_name(parsed: Option<HelloView>) -> Option<Seq<u8>> {
    match parsed {
        Some(hello) => hello.server_name,
        None => None,
    }
}

/// What a client knows after a read of `len` bytes into `data`: nothing new
/// after an empty read; otherwise the bytes read are kept, hedging is
/// allowed exactly if they parse as a ClientHello, and a server name in
/// them replaces the host of the destination.
pub open spec fn spec_retrive_dest(dest: DestinationView, list: Seq<usize>, data: Seq<u8>, len: nat)
    -> ClientView {
    if len == 0 {
        ClientView { dest, list, pending_data: None, allow_parallel: false }
    } else {
        let parsed = spec_parse_client_hello(spec_prefix(data, len));
        ClientView {
            dest: spec_redirect(dest, spec_found_name(parsed)),
            list,
            pending_data: Some(spec_prefix(data, len)),
            allow_parallel: parsed is Some,
        }
    }
}

/// Number of bytes that a race replays to each upstream.
pub open spec fn spec_pending_len(pending_data: Option<Seq<u8>>) -> nat {
    match pending_data {
        Some(data) => data.len(),
        None => 0,
    }
}

/// What one step of a client's service does to the counters of its
/// upstream.
pub enum ServiceStep {
    /// Service began.
    Serve,
    /// Service ended, after `replayed` bytes had gone to the upstream ahead
    /// of the splice and the splice ended with `outcome`.
    Finish { replayed: usize, outcome: PipeOutcome },
}

/// The bytes of a connection as accounted: what the splice moved, and with
/// it, as sent, the bytes replayed before the splice.
pub open spec fn spec_replayed_traffic(replayed: usize) -> Traffic {
    Traffic { tx_bytes: replayed as u64, rx_bytes: 0 }
}

/// The counters after one step of service: a beginning records an opening;
/// an end records the replayed bytes, then the spliced bytes, then the
/// closing.
pub open spec fn spec_service(ledger: Ledger, step: ServiceStep) -> Ledger {
    match step {
        ServiceStep::Serve => spec_record(ledger, StatsEvent::Opened),
        ServiceStep::Finish { replayed, outcome } => spec_record(
            spec_record(
                spec_record(ledger, StatsEvent::Moved(spec_replayed_traffic(replayed))),
                StatsEvent::Moved(outcome.amt),
            ),
            StatsEvent::Closed { error: outcome.error },
        ),
    }
}

/// Every entry keeps the invariant of its counters.
pub open spec fn spec_all_wf(all: Seq<ServerStats>) -> bool {
    forall|i: int| 0 <= i < all.len() ==> (#[trigger] all[i]).wf()
}

/// The counters are as many as before, and all but those of `server` are
/// as they were.
pub open spec fn spec_others_kept(before: Seq<ServerStats>, after: Seq<ServerStats>, server: usize)
    -> bool {
    &&& after.len() == before.len()
    &&& forall|i: int| 0 <= i < before.len() && i != server ==> #[trigger] after[i] == before[i]
}

/// Whether a service can begin on the entry of `server`.
pub open spec fn spec_can_serve(all: Seq<ServerStats>, server: usize) -> bool {
    server < all.len() && all[server as int].spec_opened() < u64::MAX
}

/// Whether a service can end on the entry of `server`.
pub open spec fn spec_can_finish(all: Seq<ServerStats>, server: usize) -> bool {
    server < all.len() && all[server as int].spec_alive() > 0
}

/// The counters after the steps `steps`, taken in order.
pub open spec fn spec_served(start: Ledger, steps: Seq<ServiceStep>) -> Ledger
    decreases steps.len(),
{
    if steps.len() == 0 {
        start
    } else {
        spec_service(spec_served(start, steps.drop_last()), steps.last())
    }
}

/// How many of `steps` begin a service.
pub open spec fn spec_serves(steps: Seq<ServiceStep>) -> int
    decreases steps.len(),
{
    if steps.len() == 0 {
        0
    } else {
        spec_serves(steps.drop_last()) + if steps.last() is Serve { 1int } else { 0int }
    }
}

/// How many of `steps` end a service.
pub open spec fn spec_finishes(steps: Seq<ServiceStep>) -> int
    decreases steps.len(),
{
    if steps.len() == 0 {
        0
    } else {
        spec_finishes(steps.drop_last()) + if steps.last() is Finish { 1int } else { 0int }
    }
}

/// Number of attempts that may be in flight at once: one unless duplicating
/// the client's first bytes is safe, and then as many as asked for, but no
/// more than there are upstreams.
pub open spec fn spec_effective_parallelism(
    allow_parallel: bool,
    n_parallel: nat,
    n_servers: nat,
) -> nat {
    if allow_parallel {
        spec_min(n_servers, n_parallel)
    } else {
        1
    }
}

/// Computes [`spec_effective_parallelism`].
pub fn effective_parallelism(allow_parallel: bool, n_parallel: usize, n_servers: usize) -> (k:
    usize)
    ensures
        k == spec_effective_parallelism(allow_parallel, n_parallel as nat, n_servers as nat),
{
    if allow_parallel {
        if n_servers < n_parallel {
            n_servers
        } else {
            n_parallel
        }
    } else {
        1
    }
}

/// A client stage from which upstreams can be raced.
pub trait Connectable: Sized {
    /// What the stage knows, as the race will see it.
    spec fn client_view(&self) -> ClientView;

    /// Whether the stage's invariant holds.
    spec fn ready(&self) -> bool;

    /// Whether an attempt has to await the upstream's acknowledgement.
    spec fn waits_for_response(&self) -> bool;

    /// Opens the race for this client with at most `n_parallel` attempts in
    /// flight. The first `k` upstreams of the snapshot are to be attempted
    /// at once, where `k` is the effective parallelism.
    fn connect_server(self, n_parallel: usize) -> (race: Race)
        requires
            n_parallel >= 1,
            self.ready(),
        ensures
            race.wf(),
            race@.dest == self.client_view().dest,
            race@.list == self.client_view().list,
            race@.pending_data == self.client_view().pending_data,
            race@.wait_response == self.waits_for_response(),
            race@.k == spec_effective_parallelism(
                self.client_view().allow_parallel,
                n_parallel as nat,
                self.client_view().list.len(),
            ),
            race@.next == spec_min(race@.k, race@.list.len()),
            race@.in_flight == first_positions(race@.next),
            race@.status == if race@.list.len() == 0 {
                RaceStatus::AllDown
            } else {
                RaceStatus::Running
            },
    ;
}

impl View for NewClient {
    type V = ClientView;

    closed spec fn view(&self) -> ClientView {
        ClientView {
            dest: self.dest@,
            list: self.list@,
            pending_data: None,
            allow_parallel: false,
        }
    }
}

impl NewClient {
    /// Makes a client from what the two redirection lookups on its socket
    /// returned and from the upstream list as it stands now. The IPv4
    /// answer is preferred; with neither, the client cannot be served.
    pub fn from_socket(v4: Option<RawAddrV4>, v6: Option<RawAddrV6>, list: Vec<usize>) -> (res:
        Result<NewClient, NoRedirection>)
        ensures
            match res {
                Ok(client) => spec_original_dest(v4, v6) == Some(client@.dest) && client@.list
                    == list@ && client@.pending_data is None && !client@.allow_parallel,
                Err(_) => spec_original_dest(v4, v6) is None,
            },
    {
        match original_dest(v4, v6) {
            Ok(dest) => Ok(NewClient { dest, list }),
            Err(e) => Err(e),
        }
    }

    /// Takes in the outcome of the first read: `len` bytes at the front of
    /// `data`. See [`spec_retrive_dest`] for what comes out.
    pub fn retrive_dest(self, data: Vec<u8>, len: usize) -> (res: NewClientWithData)
        ensures
            res.wf(),
            res@ == spec_retrive_dest(self@.dest, self@.list, data@, len as nat),
    {
        let NewClient { dest, list } = self;
        let mut dest = dest;
        let ghost read = data@;
        let mut data = data;
        let (allow_parallel, pending_data) = if len == 0 {
            (false, None)
        } else {
            data.truncate(len);
            assert(data@ =~= spec_prefix(read, len as nat));
            let allow_parallel = match parse_client_hello(data.as_slice()) {
                Err(_) => false,
                Ok(hello) => {
                    match hello.server_name {
                        Some(name) => {
                            dest = dest.with_server_name(name);
                        },
                        None => {},
                    }
                    true
                },
            };
            (allow_parallel, Some(data))
        };
        NewClientWithData { client: NewClient { dest, list }, allow_parallel, pending_data }
    }

    /// Opens a race over `list` with the given parallelism.
    fn open_race(
        self,
        n_parallel: usize,
        wait_response: bool,
        pending_data: Option<Vec<u8>>,
    ) -> (race: Race)
        requires
            n_parallel >= 1 || self@.list.len() == 0,
        ensures
            race.wf(),
            race@.dest == self@.dest,
            race@.list == self@.list,
            race@.k == n_parallel,
            race@.wait_response == wait_response,
            race@.pending_data == match pending_data {
                Some(data) => Some(data@),
                None => None::<Seq<u8>>,
            },
            race@.next == spec_min(n_parallel as nat, self@.list.len()),
            race@.in_flight == first_positions(race@.next),
            race@.status == if self@.list.len() == 0 {
                RaceStatus::AllDown
            } else {
                RaceStatus::Running
            },
    {
        let NewClient { dest, list } = self;
        Race::start(dest, list, n_parallel, wait_response, pending_data)
    }
}

impl Connectable for NewClient {
    open spec fn client_view(&self) -> ClientView {
        self@
    }

    open spec fn ready(&self) -> bool {
        true
    }

    open spec fn waits_for_response(&self) -> bool {
        false
    }

    /// One attempt at a time, nothing replayed, and success as soon as the
    /// handshake request is out.
    fn connect_server(self, _n_parallel: usize) -> (race: Race)
        ensures
            race@.k == 1,
            race@.pending_data is None,
            !race@.wait_response,
            race@.next == spec_min(1, race@.list.len()),
    {
        self.open_race(1, false, None)
    }
}

impl View for NewClientWithData {
    type V = ClientView;

    closed spec fn view(&self) -> ClientView {
        ClientView {
            dest: self.client.dest@,
            list: self.client.list@,
            pending_data: match self.pending_data {
                Some(data) => Some(data@),
                None => None,
            },
            allow_parallel: self.allow_parallel,
        }
    }
}

impl NewClientWithData {
    /// Hedging is allowed only on bytes that were read and that parse as a
    /// ClientHello.
    pub open spec fn wf(&self) -> bool {
        self@.allow_parallel ==> self@.pending_data is Some && spec_parse_client_hello(
            self@.pending_data.unwrap(),
        ) is Some
    }

    /// Whether the client's first bytes may be sent to several upstreams.
    pub fn allow_parallel(&self) -> (b: bool)
        ensures
            b == self@.allow_parallel,
    {
        self.allow_parallel
    }

    /// The bytes already taken from the client's socket.
    pub fn pending_data(&self) -> (res: Option<&[u8]>)
        ensures
            res is Some <==> self@.pending_data is Some,
            res is Some ==> res.unwrap()@ == self@.pending_data.unwrap(),
    {
        match &self.pending_data {
            Some(data) => Some(data.as_slice()),
            None => None,
        }
    }

    /// Where the client is headed.
    pub fn dest(&self) -> (d: &Destination)
        ensures
            d@ == self@.dest,
    {
        &self.client.dest
    }
}

impl Connectable for NewClientWithData {
    open spec fn client_view(&self) -> ClientView {
        self@
    }

    open spec fn ready(&self) -> bool {
        self.wf()
    }

    open spec fn waits_for_response(&self) -> bool {
        true
    }

    /// Hedged where that is safe; every attempt replays the pending bytes
    /// and awaits the upstream's acknowledgement.
    fn connect_server(self, n_parallel: usize) -> (race: Race) {
        let NewClientWithData { client, pending_data, allow_parallel } = self;
        let k = effective_parallelism(allow_parallel, n_parallel, client.list.len());
        client.open_race(k, true, pending_data)
    }
}

impl ConnectedClient {
    /// The handle of the upstream this client is committed to.
    pub closed spec fn spec_server(&self) -> usize {
        self.server
    }

    /// Where the client is headed.
    pub closed spec fn spec_dest(&self) -> DestinationView {
        self.dest@
    }

    /// Number of the client's bytes that were replayed to the upstream
    /// before the splice.
    pub closed spec fn spec_replayed(&self) -> usize {
        self.replayed
    }

    /// The client of a race that has a winner; `None` for any other race,
    /// so that a race that is lost or still running opens no connection.
    /// The client carries the length of the bytes that the race replayed.
    pub fn from_race(race: Race) -> (res: Option<ConnectedClient>)
        requires
            race.wf(),
        ensures
            match res {
                Some(client) => exists|w: usize|
                    race@.status == RaceStatus::Won(w) && w < race@.list.len()
                        && client.spec_server() == race@.list[w as int] && client.spec_dest()
                        == race@.dest && client.spec_replayed() == spec_pending_len(
                        race@.pending_data,
                    ),
                None => !(race@.status is Won),
            },
    {
        let replayed: usize = match race.pending_data() {
            Some(data) => data.len(),
            None => 0,
        };
        match race.into_winner() {
            Some((dest, server)) => Some(ConnectedClient { dest, server, replayed }),
            None => None,
        }
    }

    /// Number of the client's bytes that were replayed to the upstream
    /// before the splice.
    pub fn replayed(&self) -> (n: usize)
        ensures
            n == self.spec_replayed(),
    {
        self.replayed
    }

    /// The handle of the upstream this client is committed to.
    pub fn server(&self) -> (s: usize)
        ensures
            s == self.spec_server(),
    {
        self.server
    }

    /// Where the client is headed.
    pub fn dest(&self) -> (d: &Destination)
        ensures
            d@ == self.spec_dest(),
    {
        &self.dest
    }

    /// Begins service: counts one more open connection on the upstream's
    /// counters, before any byte is spliced.
    pub fn serve(self, stats: &mut ServerStats) -> (serving: Serving)
        requires
            old(stats).wf(),
            old(stats).spec_opened() < u64::MAX,
        ensures
            final(stats).wf(),
            final(stats).spec_opened() == old(stats).spec_opened() + 1,
            final(stats).spec_closed() == old(stats).spec_closed(),
            final(stats).spec_errors() == old(stats).spec_errors(),
            final(stats).spec_traffic() == old(stats).spec_traffic(),
            final(stats).ledger() == spec_service(old(stats).ledger(), ServiceStep::Serve),
            serving.spec_server() == self.spec_server(),
            serving.spec_dest() == self.spec_dest(),
            serving.spec_replayed() == self.spec_replayed(),
    {
        stats.update_stats_conn_open();
        Serving { dest: self.dest, server: self.server, replayed: self.replayed }
    }

    /// Begins service on the counters of all upstreams, indexed by handle:
    /// the opening is recorded for this client's upstream and for no
    /// other. `None`, with nothing recorded, exactly when the handle names
    /// no entry or the entry cannot count one more connection.
    pub fn serve_among(self, all: &mut Vec<ServerStats>) -> (res: Option<Serving>)
        requires
            spec_all_wf(old(all)@),
        ensures
            spec_all_wf(final(all)@),
            spec_others_kept(old(all)@, final(all)@, self.spec_server()),
            res is Some <==> spec_can_serve(old(all)@, self.spec_server()),
            match res {
                Some(serving) => final(all)@[self.spec_server() as int].ledger() == spec_service(
                    old(all)@[self.spec_server() as int].ledger(),
                    ServiceStep::Serve,
                ) && serving.spec_server() == self.spec_server() && serving.spec_dest()
                    == self.spec_dest() && serving.spec_replayed() == self.spec_replayed(),
                None => final(all)@ == old(all)@,
            },
    {
        let i: usize = self.server;
        if i >= all.len() {
            return None;
        }
        let mut stats: ServerStats = all[i];
        if !stats.can_open() {
            return None;
        }
        let serving = self.serve(&mut stats);
        all.set(i, stats);
        Some(serving)
    }
}

impl Serving {
    /// The handle of the upstream that serves.
    pub closed spec fn spec_server(&self) -> usize {
        self.server
    }

    /// Where the client is headed.
    pub closed spec fn spec_dest(&self) -> DestinationView {
        self.dest@
    }

    /// Number of the client's bytes that were replayed to the upstream
    /// before the splice.
    pub closed spec fn spec_replayed(&self) -> usize {
        self.replayed
    }

    /// The handle of the upstream that serves.
    pub fn server(&self) -> (s: usize)
        ensures
            s == self.spec_server(),
    {
        self.server
    }

    /// Ends service after the splice returned: the bytes replayed before
    /// the splice and the bytes it moved are added to the upstream's
    /// totals, and the connection is counted as closed, as failed if the
    /// splice met an error. The result repeats whether it did.
    pub fn finish(self, stats: &mut ServerStats, outcome: PipeOutcome) -> (res: Result<(), ()>)
        requires
            old(stats).wf(),
            old(stats).spec_alive() > 0,
        ensures
            final(stats).wf(),
            res is Err <==> outcome.error,
            final(stats).spec_opened() == old(stats).spec_opened(),
            final(stats).spec_closed() == old(stats).spec_closed() + 1,
            final(stats).spec_errors() == old(stats).spec_errors() + if outcome.error {
                1int
            } else {
                0int
            },
            final(stats).spec_traffic() == spec_add_traffic(
                spec_add_traffic(
                    old(stats).spec_traffic(),
                    spec_replayed_traffic(self.spec_replayed()),
                ),
                outcome.amt,
            ),
            final(stats).ledger() == spec_service(
                old(stats).ledger(),
                ServiceStep::Finish { replayed: self.spec_replayed(), outcome },
            ),
    {
        stats.add_traffic(Traffic { tx_bytes: self.replayed as u64, rx_bytes: 0 });
        stats.add_traffic(outcome.amt);
        stats.update_stats_conn_close(outcome.error);
        if outcome.error {
            Err(())
        } else {
            Ok(())
        }
    }

    /// Ends service on the counters of all upstreams, indexed by handle:
    /// bytes and closing are recorded for the serving upstream and for no
    /// other. Where the handle names no entry, or the entry has no
    /// connection open, nothing is recorded. The result is `Ok` exactly
    /// when the closing was recorded and the splice met no error.
    pub fn finish_among(self, all: &mut Vec<ServerStats>, outcome: PipeOutcome) -> (res: Result<
        (),
        (),
    >)
        requires
            spec_all_wf(old(all)@),
        ensures
            spec_all_wf(final(all)@),
            spec_others_kept(old(all)@, final(all)@, self.spec_server()),
            res is Ok <==> spec_can_finish(old(all)@, self.spec_server()) && !outcome.error,
            spec_can_finish(old(all)@, self.spec_server()) ==> final(all)@[self.spec_server() as int].ledger()
                == spec_service(
                old(all)@[self.spec_server() as int].ledger(),
                ServiceStep::Finish { replayed: self.spec_replayed(), outcome },
            ),
            !spec_can_finish(old(all)@, self.spec_server()) ==> final(all)@ == old(all)@,
    {
        let i: usize = self.server;
        if i >= all.len() {
            return Err(());
        }
        let mut stats: ServerStats = all[i];
        if stats.conn_alive() == 0 {
            return Err(());
        }
        let res = self.finish(&mut stats, outcome);
        all.set(i, stats);
        res
    }
}

/// A client that may hedge has bytes pending that parse as a ClientHello.
pub proof fn lemma_parallel_means_client_hello(dest: DestinationView, list: Seq<usize>, data: Seq<
    u8,
>, len: nat)
    requires
        spec_retrive_dest(dest, list, data, len).allow_parallel,
    ensures
        len > 0,
        spec_retrive_dest(dest, list, data, len).pending_data == Some(spec_prefix(data, len)),
        spec_parse_client_hello(spec_prefix(data, len)) is Some,
{
}

/// After an empty read nothing is pending, the destination is as before,
/// and one attempt at a time is made whatever parallelism was asked for.
pub proof fn lemma_empty_read(dest: DestinationView, list: Seq<usize>, data: Seq<u8>, n_parallel: nat)
    ensures
        spec_retrive_dest(dest, list, data, 0) == (ClientView {
            dest,
            list,
            pending_data: None,
            allow_parallel: false,
        }),
        spec_effective_parallelism(
            spec_retrive_dest(dest, list, data, 0).allow_parallel,
            n_parallel,
            list.len(),
        ) == 1,
{
}

/// A record that announces more bytes than the prefix holds is no
/// ClientHello, so a client that sent it may not hedge.
pub proof fn lemma_truncated_record(dest: DestinationView, list: Seq<usize>, data: Seq<u8>)
    requires
        data.len() >= 5,
        5 + crate::tls::be16(data, 3) > data.len(),
    ensures
        spec_parse_client_hello(data) is None,
        !spec_retrive_dest(dest, list, data, data.len()).allow_parallel,
        spec_retrive_dest(dest, list, data, data.len()).dest == dest,
{
    assert(spec_prefix(data, data.len()) =~= data);
}

/// Asking for a parallelism of one gives the same single lane whether or
/// not the client's first bytes were a ClientHello, as long as there is an
/// upstream at all.
pub proof fn lemma_single_lane(n_servers: nat)
    requires
        n_servers >= 1,
    ensures
        spec_effective_parallelism(true, 1, n_servers) == 1,
        spec_effective_parallelism(true, 1, n_servers) == spec_effective_parallelism(
            false,
            1,
            n_servers,
        ),
{
}

/// Whatever clients an upstream serves, its counters record one opening
/// for every service begun and one closing for every service ended. So
/// whenever as many connections are open after the steps as were before,
/// in particular whenever none is open at either end, as many closings
/// were recorded as openings.
pub proof fn lemma_service_balance(start: Ledger, steps: Seq<ServiceStep>)
    ensures
        spec_served(start, steps).opened == start.opened + spec_serves(steps),
        spec_served(start, steps).closed == start.closed + spec_finishes(steps),
        spec_served(start, steps).alive() == start.alive() + spec_serves(steps) - spec_finishes(
            steps,
        ),
        spec_served(start, steps).alive() == start.alive() ==> spec_served(start, steps).opened
            - start.opened == spec_served(start, steps).closed - start.closed,
    decreases steps.len(),
{
    if steps.len() > 0 {
        lemma_service_balance(start, steps.drop_last());
    }
}

/// A client whose bytes were all taken by the first read is accounted for
/// them: at the end of its service the bytes sent through its upstream have
/// grown by the replayed bytes and by what the splice forwarded, unless the
/// total is held at the largest `u64`.
pub proof fn lemma_replayed_bytes_count(ledger: Ledger, replayed: usize, outcome: PipeOutcome)
    ensures
        spec_service(ledger, ServiceStep::Finish { replayed, outcome }).traffic.tx_bytes
            >= replayed,
        spec_service(ledger, ServiceStep::Finish { replayed, outcome }).traffic.tx_bytes
            >= ledger.traffic.tx_bytes,
        spec_service(ledger, ServiceStep::Finish { replayed, outcome }).traffic.rx_bytes
            >= outcome.amt.rx_bytes,
        ledger.traffic.tx_bytes + replayed + outcome.amt.tx_bytes <= u64::MAX ==> spec_service(
            ledger,
            ServiceStep::Finish { replayed, outcome },
        ).traffic.tx_bytes == ledger.traffic.tx_bytes + replayed + outcome.amt.tx_bytes,
        ledger.traffic.rx_bytes + outcome.amt.rx_bytes <= u64::MAX ==> spec_service(
            ledger,
            ServiceStep::Finish { replayed, outcome },
        ).traffic.rx_bytes == ledger.traffic.rx_bytes + outcome.amt.rx_bytes,
{
}

} // verus!

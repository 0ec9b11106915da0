//! Routing decisions of the relay hub.
//!
//! The hub keeps a registry of connected peers and forwards every chunk of
//! bytes that one peer sends to all the other peers. It never looks inside
//! the bytes. This module holds the registry and the rule that turns each
//! thing that happens at the hub (an accepted connection, a chunk read, a
//! peer going away) into the next registry and the action to perform.
//! Sockets, threads and the lock around the registry belong to the caller.

use vstd::prelude::*;

verus! {

/// How long the accept loop waits before it polls the listener again.
pub const ACCEPT_POLL_MS: u64 = 100;

/// How long a write to one peer may take before it counts as failed, so
/// that a peer that does not read cannot hold up the others.
pub const PEER_WRITE_TIMEOUT_SECS: u64 = 5;

/// Remote address of a peer: address family, host bits and port.
/// An IPv4 host occupies the low 32 bits of `host`.
#[derive(Clone, Copy, Debug, PartialEq, Eq, Hash, Structural)]
pub struct PeerAddr {
    pub v6: bool,
    pub host: u128,
    pub port: u16,
}

/// Why the hub stopped with a failure.
#[derive(Clone, Copy, Debug, PartialEq, Eq, Structural)]
pub enum ServerError {
    /// The listener reported an error other than "nothing pending".
    AcceptFailed,
}

/// Something that happened at the hub.
#[derive(Clone, Copy, Debug, PartialEq, Eq, Structural)]
pub enum HubEvent {
    /// The shutdown signal arrived.
    Shutdown,
    /// The listener accepted a connection from this address.
    Accepted(PeerAddr),
    /// The listener had no connection pending.
    NothingPending,
    /// The listener failed.
    AcceptFailed,
    /// A chunk of bytes arrived from this peer.
    Received(PeerAddr),
    /// This peer's connection ended: end of stream or a read error.
    Closed(PeerAddr),
    /// Writing a chunk to this peer failed.
    WriteFailed(PeerAddr),
}

/// What the caller has to do in answer to an event.
#[derive(Clone, Debug, PartialEq, Eq)]
pub enum HubAction {
    /// Leave the accept loop; the hub ends without error.
    Stop,
    /// Leave the accept loop; the hub ends with this error.
    Fail(ServerError),
    /// Start reading from this newly registered peer.
    Serve(PeerAddr),
    /// Wait this many milliseconds, then poll the listener again.
    Sleep(u64),
    /// Write the chunk that was just received to each of these peers.
    Deliver(Vec<PeerAddr>),
    /// Close what is held for this peer: it is no longer registered.
    Release(PeerAddr),
}

/// Mathematical form of a [`HubAction`].
pub enum HubActionView {
    Stop,
    Fail(ServerError),
    Serve(PeerAddr),
    Sleep(u64),
    Deliver(Seq<PeerAddr>),
    Release(PeerAddr),
}

impl View for HubAction {
    type V = HubActionView;

    open spec fn view(&self) -> HubActionView {
        match self {
            HubAction::Stop => HubActionView::Stop,
            HubAction::Fail(e) => HubActionView::Fail(*e),
            HubAction::Serve(a) => HubActionView::Serve(*a),
            HubAction::Sleep(ms) => HubActionView::Sleep(*ms),
            HubAction::Deliver(to) => HubActionView::Deliver(to@),
            HubAction::Release(a) => HubActionView::Release(*a),
        }
    }
}

/// The test "is not the sender".
pub open spec fn not_sender(sender: Option<PeerAddr>) -> spec_fn(PeerAddr) -> bool {
    |p: PeerAddr| Some(p) != sender
}

/// The test "is another address than `addr`".
pub open spec fn not_addr(addr: PeerAddr) -> spec_fn(PeerAddr) -> bool {
    |p: PeerAddr| p != addr
}

/// The registered peers that a chunk from `sender` goes to: all but the
/// sender itself, in order of registration.
pub open spec fn others(peers: Seq<PeerAddr>, sender: Option<PeerAddr>) -> Seq<PeerAddr> {
    peers.filter(not_sender(sender))
}

/// The registry after `addr` has left it.
pub open spec fn without(peers: Seq<PeerAddr>, addr: PeerAddr) -> Seq<PeerAddr> {
    peers.filter(not_addr(addr))
}

/// The registry after `addr` has joined it. An address that is already
/// registered keeps its place.
pub open spec fn with_peer(peers: Seq<PeerAddr>, addr: PeerAddr) -> Seq<PeerAddr> {
    if peers.contains(addr) {
        peers
    } else {
        peers.push(addr)
    }
}

/// The registry that follows `peers` once `event` has been handled.
pub open spec fn peers_after(peers: Seq<PeerAddr>, event: HubEvent) -> Seq<PeerAddr> {
    match event {
        HubEvent::Accepted(addr) => with_peer(peers, addr),
        HubEvent::Closed(addr) => without(peers, addr),
        HubEvent::WriteFailed(addr) => without(peers, addr),
        _ => peers,
    }
}

/// The action that answers `event` when the registry is `peers`.
pub open spec fn action_for(peers: Seq<PeerAddr>, event: HubEvent) -> HubActionView {
    match event {
        HubEvent::Shutdown => HubActionView::Stop,
        HubEvent::Accepted(addr) => HubActionView::Serve(addr),
        HubEvent::NothingPending => HubActionView::Sleep(ACCEPT_POLL_MS),
        HubEvent::AcceptFailed => HubActionView::Fail(ServerError::AcceptFailed),
        HubEvent::Received(from) => HubActionView::Deliver(others(peers, Some(from))),
        HubEvent::Closed(addr) => HubActionView::Release(addr),
        HubEvent::WriteFailed(addr) => HubActionView::Release(addr),
    }
}

/// Whether the hub stops after `event`.
pub open spec fn ends_run(event: HubEvent) -> bool {
    event is Shutdown || event is AcceptFailed
}

/// The actions that a hub with registry `peers` performs on `events`, up to
/// and including the action that stops it.
pub open spec fn actions_of(peers: Seq<PeerAddr>, events: Seq<HubEvent>) -> Seq<HubActionView>
    decreases events.len(),
{
    if events.len() == 0 {
        Seq::empty()
    } else if ends_run(events[0]) {
        seq![action_for(peers, events[0])]
    } else {
        seq![action_for(peers, events[0])] + actions_of(
            peers_after(peers, events[0]),
            events.drop_first(),
        )
    }
}

/// How a hub that sees `events` ends: with an error if the listener fails
/// before any shutdown signal, without one otherwise.
pub open spec fn outcome_of(events: Seq<HubEvent>) -> Result<(), ServerError>
    decreases events.len(),
{
    if events.len() == 0 {
        Ok(())
    } else if events[0] is AcceptFailed {
        Err(ServerError::AcceptFailed)
    } else if events[0] is Shutdown {
        Ok(())
    } else {
        outcome_of(events.drop_first())
    }
}

/// The mathematical forms of a list of actions.
pub open spec fn action_views(actions: Seq<HubAction>) -> Seq<HubActionView> {
    actions.map_values(|a: HubAction| a@)
}

/// What a hub did on a sequence of events, and how it ended.
#[derive(Debug, PartialEq, Eq)]
pub struct RunReport {
    pub actions: Vec<HubAction>,
    pub result: Result<(), ServerError>,
}

/// The hub's registry of connected peers.
pub struct Server {
    clients: Vec<PeerAddr>,
}

impl Server {
    #[verifier::type_invariant]
    spec fn distinct(self) -> bool {
        self.clients@.no_duplicates()
    }

    /// The registered peers, in order of registration.
    pub closed spec fn view(&self) -> Seq<PeerAddr> {
        self.clients@
    }

    /// A hub with no peers.
    pub fn new() -> (server: Server)
        ensures
            server@ == Seq::<PeerAddr>::empty(),
    {
        Server { clients: Vec::new() }
    }

    /// Number of registered peers.
    pub fn len(&self) -> (n: usize)
        ensures
            n == self@.len(),
    {
        self.clients.len()
    }

    /// Whether `addr` is registered.
    pub fn contains(&self, addr: PeerAddr) -> (found: bool)
        ensures
            found == self@.contains(addr),
    {
        let mut i: usize = 0;
        while i < self.clients.len()
            invariant
                i <= self.clients.len(),
                forall|j: int| 0 <= j < i ==> self.clients@[j] != addr,
            decreases self.clients.len() - i,
        {
            if self.clients[i] == addr {
                return true;
            }
            i += 1;
        }
        false
    }

    /// The registered peers, in order of registration. No address occurs
    /// twice.
    pub fn peers(&self) -> (peers: Vec<PeerAddr>)
        ensures
            peers@ == self@,
            peers@.no_duplicates(),
    {
        proof {
            use_type_invariant(self);
        }
        self.clients.clone()
    }

    /// Registers `addr`. Returns whether it was new.
    pub fn register(&mut self, addr: PeerAddr) -> (added: bool)
        ensures
            added == !old(self)@.contains(addr),
            final(self)@ == with_peer(old(self)@, addr),
            final(self)@.no_duplicates(),
    {
        proof {
            use_type_invariant(&*self);
        }
        if self.contains(addr) {
            false
        } else {
            let mut grown = self.peers();
            grown.push(addr);
            self.clients = grown;
            true
        }
    }

    /// Removes `addr` from the registry. Returns whether it was registered.
    pub fn deregister(&mut self, addr: PeerAddr) -> (removed: bool)
        ensures
            removed == old(self)@.contains(addr),
            final(self)@ == without(old(self)@, addr),
            final(self)@.no_duplicates(),
    {
        proof {
            use_type_invariant(&*self);
        }
        let ghost keep = not_addr(addr);
        let mut kept: Vec<PeerAddr> = Vec::new();
        let mut removed = false;
        let mut i: usize = 0;
        while i < self.clients.len()
            invariant
                i <= self.clients.len(),
                self.clients@ == old(self).clients@,
                keep == not_addr(addr),
                kept@ == self.clients@.take(i as int).filter(keep),
                removed == self.clients@.take(i as int).contains(addr),
            decreases self.clients.len() - i,
        {
            let p = self.clients[i];
            proof {
                lemma_filter_step(self.clients@, i as int, keep);
                lemma_contains_step(self.clients@, i as int, addr);
            }
            if p == addr {
                removed = true;
            } else {
                kept.push(p);
            }
            i += 1;
        }
        proof {
            assert(self.clients@.take(i as int) =~= self.clients@);
            lemma_filter_distinct(self.clients@, keep);
        }
        self.clients = kept;
        removed
    }

    /// The peers that a chunk from `sender` is delivered to: every
    /// registered peer but the sender, in order of registration. A chunk
    /// without a sender goes to every registered peer.
    pub fn broadcast(&self, sender: Option<PeerAddr>) -> (targets: Vec<PeerAddr>)
        ensures
            targets@ == others(self@, sender),
    {
        let ghost keep = not_sender(sender);
        let mut targets: Vec<PeerAddr> = Vec::new();
        let mut i: usize = 0;
        while i < self.clients.len()
            invariant
                i <= self.clients.len(),
                keep == not_sender(sender),
                targets@ == self.clients@.take(i as int).filter(keep),
            decreases self.clients.len() - i,
        {
            let p = self.clients[i];
            proof {
                lemma_filter_step(self.clients@, i as int, keep);
            }
            let is_sender = match sender {
                Some(s) => p == s,
                None => false,
            };
            if !is_sender {
                targets.push(p);
            }
            i += 1;
        }
        proof {
            assert(self.clients@.take(i as int) =~= self.clients@);
        }
        targets
    }

    /// Handles one event: updates the registry and says what to do.
    pub fn step(&mut self, event: HubEvent) -> (action: HubAction)
        ensures
            action@ == action_for(old(self)@, event),
            final(self)@ == peers_after(old(self)@, event),
            final(self)@.no_duplicates(),
    {
        proof {
            use_type_invariant(&*self);
        }
        match event {
            HubEvent::Shutdown => HubAction::Stop,
            HubEvent::Accepted(addr) => {
                self.register(addr);
                HubAction::Serve(addr)
            },
            HubEvent::NothingPending => HubAction::Sleep(ACCEPT_POLL_MS),
            HubEvent::AcceptFailed => HubAction::Fail(ServerError::AcceptFailed),
            HubEvent::Received(from) => HubAction::Deliver(self.broadcast(Some(from))),
            HubEvent::Closed(addr) => {
                self.deregister(addr);
                HubAction::Release(addr)
            },
            HubEvent::WriteFailed(addr) => {
                self.deregister(addr);
                HubAction::Release(addr)
            },
        }
    }
}

/// Runs a hub that starts with no peers over `events`, in order, until a
/// shutdown signal or a listener failure, or until the events run out.
/// Reports every action taken and how the hub ended.
pub fn run(events: &Vec<HubEvent>) -> (report: RunReport)
    ensures
        action_views(report.actions@) == actions_of(Seq::empty(), events@),
        report.result == outcome_of(events@),
{
    let mut server = Server::new();
    let mut actions: Vec<HubAction> = Vec::new();
    let mut result: Result<(), ServerError> = Ok(());
    let mut i: usize = 0;
    let mut running = true;
    proof {
        assert(events@.skip(0) =~= events@);
    }
    while running && i < events.len()
        invariant
            i <= events.len(),
            running ==> actions_of(Seq::empty(), events@) == action_views(actions@) + actions_of(
                server@,
                events@.skip(i as int),
            ),
            running ==> outcome_of(events@) == outcome_of(events@.skip(i as int)),
            running ==> result == Ok::<(), ServerError>(()),
            !running ==> actions_of(Seq::empty(), events@) == action_views(actions@),
            !running ==> outcome_of(events@) == result,
        decreases events.len() - i, running as int,
    {
        let event = events[i];
        proof {
            assert(events@.skip(i as int).drop_first() =~= events@.skip(i as int + 1));
        }
        let action = server.step(event);
        match action {
            HubAction::Stop => {
                running = false;
            },
            HubAction::Fail(e) => {
                result = Err(e);
                running = false;
            },
            _ => {},
        }
        actions.push(action);
        i += 1;
    }
    RunReport { actions, result }
}

/// Filtering one element more either appends that element or changes nothing.
proof fn lemma_filter_step(s: Seq<PeerAddr>, i: int, keep: spec_fn(PeerAddr) -> bool)
    requires
        0 <= i < s.len(),
    ensures
        s.take(i + 1).filter(keep) == if keep(s[i]) {
            s.take(i).filter(keep).push(s[i])
        } else {
            s.take(i).filter(keep)
        },
{
    reveal(Seq::filter);
    assert(s.take(i + 1).drop_last() =~= s.take(i));
}

/// Membership in one element more.
proof fn lemma_contains_step(s: Seq<PeerAddr>, i: int, addr: PeerAddr)
    requires
        0 <= i < s.len(),
    ensures
        s.take(i + 1).contains(addr) == (s.take(i).contains(addr) || s[i] == addr),
{
    if s[i] == addr {
        assert(s.take(i + 1)[i] == addr);
    }
}

/// What is left of a list without repetitions has none either.
proof fn lemma_filter_distinct(s: Seq<PeerAddr>, keep: spec_fn(PeerAddr) -> bool)
    requires
        s.no_duplicates(),
    ensures
        s.filter(keep).no_duplicates(),
    decreases s.len(),
{
    reveal(Seq::filter);
    if s.len() > 0 {
        let front = s.drop_last();
        lemma_filter_distinct(front, keep);
        if keep(s.last()) {
            if front.filter(keep).contains(s.last()) {
                front.lemma_filter_contains_rev(keep, s.last());
            }
        }
    }
}

/// A chunk never goes back to the peer that sent it, and it goes to every
/// other registered peer.
pub proof fn lemma_broadcast_excludes_only_sender(peers: Seq<PeerAddr>, sender: PeerAddr)
    ensures
        !others(peers, Some(sender)).contains(sender),
        forall|p: PeerAddr|
            peers.contains(p) && p != sender ==> #[trigger] others(peers, Some(sender)).contains(p),
        forall|p: PeerAddr| #[trigger]
            others(peers, Some(sender)).contains(p) ==> peers.contains(p),
{
    let keep = not_sender(Some(sender));
    let out = peers.filter(keep);
    if out.contains(sender) {
        let j = choose|j: int| 0 <= j < out.len() && out[j] == sender;
        peers.lemma_filter_pred(keep, j);
    }
    assert forall|p: PeerAddr| peers.contains(p) && p != sender implies #[trigger] others(
        peers,
        Some(sender),
    ).contains(p) by {
        let j = choose|j: int| 0 <= j < peers.len() && peers[j] == p;
        peers.lemma_filter_contains(keep, j);
    }
    assert forall|p: PeerAddr| #[trigger]
        others(peers, Some(sender)).contains(p) implies peers.contains(p) by {
        peers.lemma_filter_contains_rev(keep, p);
    }
}

/// Losing one recipient takes nothing from the others: a peer that was to
/// receive a chunk still receives it once another peer, `failed`, has been
/// removed from the registry.
pub proof fn lemma_failed_peer_spares_others(
    peers: Seq<PeerAddr>,
    sender: Option<PeerAddr>,
    failed: PeerAddr,
    other: PeerAddr,
)
    requires
        others(peers, sender).contains(other),
        other != failed,
    ensures
        others(without(peers, failed), sender).contains(other),
{
    let to_others = not_sender(sender);
    let not_failed = not_addr(failed);
    let before = peers.filter(to_others);
    let j = choose|j: int| 0 <= j < before.len() && before[j] == other;
    peers.lemma_filter_pred(to_others, j);
    peers.lemma_filter_contains_rev(to_others, other);
    let k = choose|k: int| 0 <= k < peers.len() && peers[k] == other;
    peers.lemma_filter_contains(not_failed, k);
    let remaining = peers.filter(not_failed);
    let m = choose|m: int| 0 <= m < remaining.len() && remaining[m] == other;
    remaining.lemma_filter_contains(to_others, m);
}

} // verus!

//! Reconnect bookkeeping for one logical link to a fixed remote address.
//!
//! A link is either connected or being re-established. All the handles of a
//! link share one [`ReconnectableTcpStream`], which holds the live
//! connection and decides what each handle does next: use the connection it
//! has, take over a newer one, make the next connection attempt, or wait for
//! the attempt that another handle is making. The caller performs the
//! transfers, the sleeps and the connection attempts, and reports how they
//! went; it keeps the link behind a lock that it does not hold while it
//! blocks.

use vstd::prelude::*;

verus! {

/// Backoff before the first reconnect attempt, and again after every success.
pub const INITIAL_BACKOFF_MS: u64 = 50;

/// Ceiling of the backoff between reconnect attempts.
pub const MAX_BACKOFF_MS: u64 = 10_000;

/// Timeout of a single connection attempt.
pub const CONNECTION_TIMEOUT_SECS: u64 = 5;

/// The backoff that follows `current` after one more failed attempt:
/// twice as long, but never above the ceiling.
pub open spec fn doubled_backoff(current: nat) -> nat {
    if 2 * current >= MAX_BACKOFF_MS as nat {
        MAX_BACKOFF_MS as nat
    } else {
        2 * current
    }
}

/// The backoff before attempt number `failures + 1` of a reconnect that
/// started with backoff `start`: `start` doubled once for each failure so
/// far, up to the ceiling.
pub open spec fn backoff_after(start: nat, failures: nat) -> nat
    decreases failures,
{
    if failures == 0 {
        start
    } else {
        doubled_backoff(backoff_after(start, (failures - 1) as nat))
    }
}

/// Computes the backoff to use after a failed attempt that waited `current_ms`.
pub fn next_backoff(current_ms: u64) -> (next_ms: u64)
    ensures
        next_ms as nat == doubled_backoff(current_ms as nat),
{
    if current_ms >= MAX_BACKOFF_MS / 2 {
        MAX_BACKOFF_MS
    } else {
        current_ms * 2
    }
}

/// The state of a link, without the connection itself.
pub struct Link {
    /// Whether a live connection is held.
    pub connected: bool,
    /// How long to wait before the next connection attempt.
    pub backoff_ms: u64,
    /// Number of the next connection attempt of the reconnect under way,
    /// counted from 1; 0 while connected.
    pub attempt: u64,
    /// Whether a handle is making a connection attempt right now.
    pub in_flight: bool,
    /// Counts the connections that the link has had, so that a handle can
    /// tell the connection it used from the one that is live now.
    pub generation: u64,
}

/// The state of a link that has just been opened.
pub open spec fn opened() -> Link {
    Link {
        connected: true,
        backoff_ms: INITIAL_BACKOFF_MS,
        attempt: 0,
        in_flight: false,
        generation: 0,
    }
}

/// What holds of every state that a link can reach: the backoff stays
/// between floor and ceiling; a connected link has the floor as backoff and
/// no reconnect under way; a link without connection has an attempt number.
pub open spec fn consistent(s: Link) -> bool {
    &&& INITIAL_BACKOFF_MS <= s.backoff_ms <= MAX_BACKOFF_MS
    &&& s.connected ==> s.backoff_ms == INITIAL_BACKOFF_MS && s.attempt == 0 && !s.in_flight
    &&& !s.connected ==> s.attempt >= 1
}

/// The state after a handle has reported that connection number `seen`
/// failed. Only a report about the live connection counts: the connection
/// is given up and a reconnect starts with attempt 1. A report about a
/// connection that has been replaced already changes nothing.
pub open spec fn link_lost(s: Link, seen: u64) -> Link {
    if s.connected && s.generation == seen {
        Link { connected: false, attempt: 1, in_flight: false, ..s }
    } else {
        s
    }
}

/// Whether a handle that asks may make the next connection attempt.
pub open spec fn may_attempt(s: Link) -> bool {
    !s.connected && !s.in_flight
}

/// The state after a handle has taken on the next connection attempt.
pub open spec fn attempt_begun(s: Link) -> Link {
    if may_attempt(s) {
        Link { in_flight: true, ..s }
    } else {
        s
    }
}

/// One more, unless that does not fit.
pub open spec fn incremented(n: u64) -> u64 {
    if n == u64::MAX {
        n
    } else {
        (n + 1) as u64
    }
}

/// One more, starting again at 0 after the largest number.
pub open spec fn next_generation(n: u64) -> u64 {
    if n == u64::MAX {
        0
    } else {
        (n + 1) as u64
    }
}

/// The state after a connection attempt has failed: the backoff doubles up
/// to the ceiling and the attempt number goes up. Nothing changes while
/// connected.
pub open spec fn attempt_failed(s: Link) -> Link {
    if s.connected {
        s
    } else {
        Link {
            backoff_ms: doubled_backoff(s.backoff_ms as nat) as u64,
            attempt: incremented(s.attempt),
            in_flight: false,
            ..s
        }
    }
}

/// The state after a connection has been established: connected, with the
/// backoff back at its floor, as the next generation.
pub open spec fn attempt_succeeded(s: Link) -> Link {
    Link {
        connected: true,
        backoff_ms: INITIAL_BACKOFF_MS,
        attempt: 0,
        in_flight: false,
        generation: next_generation(s.generation),
    }
}

/// The state after `failures` connection attempts in a row have been made
/// and have failed.
pub open spec fn after_failures(s: Link, failures: nat) -> Link
    decreases failures,
{
    if failures == 0 {
        s
    } else {
        attempt_failed(attempt_begun(after_failures(s, (failures - 1) as nat)))
    }
}

/// What a handle does next.
#[derive(Clone, Copy, Debug, PartialEq, Eq, Structural)]
pub enum Plan {
    /// Transfer on the connection that the handle holds.
    Use,
    /// Take a handle to the live connection, which is newer than the one
    /// the handle holds, then transfer on it.
    Adopt,
    /// Wait `backoff_ms`, then try to connect: this is attempt `number`.
    Attempt { number: u64, backoff_ms: u64 },
    /// Another handle is connecting: wait for it.
    Wait,
}

/// The plan for a handle that holds connection number `seen`, or none.
pub open spec fn plan_for(s: Link, seen: Option<u64>) -> Plan {
    if s.connected {
        if seen == Some(s.generation) {
            Plan::Use
        } else {
            Plan::Adopt
        }
    } else if s.in_flight {
        Plan::Wait
    } else {
        Plan::Attempt { number: s.attempt, backoff_ms: s.backoff_ms }
    }
}

/// The direction of a transfer.
#[derive(Clone, Copy, Debug, PartialEq, Eq, Structural)]
pub enum Transfer {
    Read,
    Write,
}

/// How a transfer on the connection went.
#[derive(Clone, Copy, Debug, PartialEq, Eq, Structural)]
pub enum IoOutcome {
    /// This many bytes were transferred.
    Done(usize),
    /// The transport reported an error.
    Failed,
}

/// Whether the outcome of a transfer shows that the connection is gone: an
/// error in either direction, or a read of no bytes, which is how an orderly
/// close by the remote side shows.
pub open spec fn shows_dead_link(kind: Transfer, outcome: IoOutcome) -> bool {
    outcome is Failed || (kind is Read && outcome == IoOutcome::Done(0))
}

/// Decides whether the outcome of a transfer shows that the connection is
/// gone.
pub fn link_is_dead(kind: Transfer, outcome: IoOutcome) -> (dead: bool)
    ensures
        dead == shows_dead_link(kind, outcome),
{
    match outcome {
        IoOutcome::Failed => true,
        IoOutcome::Done(n) => match kind {
            Transfer::Read => n == 0,
            Transfer::Write => false,
        },
    }
}

/// One logical link to a fixed remote address: the live connection, if
/// there is one, and the state of the reconnect, if one is under way.
/// `S` is the type of the connection, which this type only stores.
pub struct ReconnectableTcpStream<S> {
    stream: Option<S>,
    server_addr: String,
    current_backoff_ms: u64,
    attempt: u64,
    attempt_in_flight: bool,
    generation: u64,
}

impl<S> ReconnectableTcpStream<S> {
    /// The state of the link.
    pub closed spec fn view(&self) -> Link {
        Link {
            connected: self.stream is Some,
            backoff_ms: self.current_backoff_ms,
            attempt: self.attempt,
            in_flight: self.attempt_in_flight,
            generation: self.generation,
        }
    }

    /// The live connection, if there is one.
    pub closed spec fn connection(&self) -> Option<S> {
        self.stream
    }

    /// The remote address.
    pub closed spec fn address(&self) -> Seq<char> {
        self.server_addr@
    }

    /// A link to `server_addr` whose first connection, `stream`, has just
    /// been established.
    pub fn new(server_addr: String, stream: S) -> (link: Self)
        ensures
            link@ == opened(),
            link.connection() == Some(stream),
            link.address() == server_addr@,
    {
        ReconnectableTcpStream {
            stream: Some(stream),
            server_addr,
            current_backoff_ms: INITIAL_BACKOFF_MS,
            attempt: 0,
            attempt_in_flight: false,
            generation: 0,
        }
    }

    /// The remote address.
    pub fn server_addr(&self) -> (addr: &str)
        ensures
            addr@ == self.address(),
    {
        self.server_addr.as_str()
    }

    /// The live connection, if there is one.
    pub fn stream(&self) -> (stream: Option<&S>)
        ensures
            stream == match self.connection() {
                Some(s) => Some(&s),
                None => None,
            },
            stream is Some == self@.connected,
    {
        self.stream.as_ref()
    }

    /// Whether a live connection is held.
    pub fn is_connected(&self) -> (connected: bool)
        ensures
            connected == self@.connected,
    {
        self.stream.is_some()
    }

    /// The number of the live connection, or of the last one.
    pub fn generation(&self) -> (generation: u64)
        ensures
            generation == self@.generation,
    {
        self.generation
    }

    /// How long to wait before the next connection attempt.
    pub fn current_backoff_ms(&self) -> (backoff_ms: u64)
        ensures
            backoff_ms == self@.backoff_ms,
    {
        self.current_backoff_ms
    }

    /// What a handle that holds connection number `seen`, or none, does
    /// next.
    pub fn plan(&self, seen: Option<u64>) -> (plan: Plan)
        ensures
            plan == plan_for(self@, seen),
    {
        if self.stream.is_some() {
            let current = match seen {
                Some(g) => g == self.generation,
                None => false,
            };
            if current {
                Plan::Use
            } else {
                Plan::Adopt
            }
        } else if self.attempt_in_flight {
            Plan::Wait
        } else {
            Plan::Attempt { number: self.attempt, backoff_ms: self.current_backoff_ms }
        }
    }

    /// Takes the report of a handle that connection number `seen` failed.
    /// Returns whether the report was about the live connection, which is
    /// then given up.
    pub fn report_failure(&mut self, seen: u64) -> (lost: bool)
        ensures
            lost == (old(self)@.connected && old(self)@.generation == seen),
            final(self)@ == link_lost(old(self)@, seen),
            final(self).connection() == if lost {
                None
            } else {
                old(self).connection()
            },
            final(self).address() == old(self).address(),
    {
        if self.stream.is_some() && self.generation == seen {
            self.stream = None;
            self.attempt = 1;
            self.attempt_in_flight = false;
            true
        } else {
            false
        }
    }

    /// Takes the outcome of a transfer that a handle made on connection
    /// number `seen`. Returns the number of bytes to hand to the handle's
    /// caller, or `None` where the outcome shows that the connection is
    /// gone; the failure is then reported as by
    /// [`report_failure`](Self::report_failure).
    pub fn complete_transfer(&mut self, seen: u64, kind: Transfer, outcome: IoOutcome) -> (done:
        Option<usize>)
        ensures
            shows_dead_link(kind, outcome) ==> done is None && final(self)@ == link_lost(
                old(self)@,
                seen,
            ),
            !shows_dead_link(kind, outcome) ==> outcome == IoOutcome::Done(done->Some_0)
                && done is Some && final(self)@ == old(self)@ && final(self).connection() == old(
                self,
            ).connection(),
            final(self).address() == old(self).address(),
    {
        if link_is_dead(kind, outcome) {
            self.report_failure(seen);
            None
        } else {
            match outcome {
                IoOutcome::Done(n) => Some(n),
                IoOutcome::Failed => None,
            }
        }
    }

    /// Takes on the next connection attempt, if the link has no connection
    /// and no other handle is connecting. Returns the number of the attempt
    /// and the time to wait before it.
    pub fn begin_attempt(&mut self) -> (attempt: Option<(u64, u64)>)
        ensures
            final(self)@ == attempt_begun(old(self)@),
            attempt == if may_attempt(old(self)@) {
                Some((old(self)@.attempt, old(self)@.backoff_ms))
            } else {
                None
            },
            final(self).connection() == old(self).connection(),
            final(self).address() == old(self).address(),
    {
        if self.stream.is_none() && !self.attempt_in_flight {
            self.attempt_in_flight = true;
            Some((self.attempt, self.current_backoff_ms))
        } else {
            None
        }
    }

    /// Records that a connection attempt failed.
    pub fn connect_failed(&mut self)
        ensures
            final(self)@ == attempt_failed(old(self)@),
            final(self).connection() == old(self).connection(),
            final(self).address() == old(self).address(),
    {
        if self.stream.is_none() {
            self.current_backoff_ms = next_backoff(self.current_backoff_ms);
            if self.attempt < u64::MAX {
                self.attempt = self.attempt + 1;
            }
            self.attempt_in_flight = false;
        }
    }

    /// Installs a newly established connection as the live one. Returns the
    /// number of attempts that the reconnect took.
    pub fn connect_succeeded(&mut self, stream: S) -> (attempts: u64)
        ensures
            attempts == old(self)@.attempt,
            final(self)@ == attempt_succeeded(old(self)@),
            final(self).connection() == Some(stream),
            final(self).address() == old(self).address(),
    {
        let attempts = self.attempt;
        self.stream = Some(stream);
        self.current_backoff_ms = INITIAL_BACKOFF_MS;
        self.attempt = 0;
        self.attempt_in_flight = false;
        self.generation = if self.generation == u64::MAX {
            0
        } else {
            self.generation + 1
        };
        attempts
    }
}

/// Every step of a link leads from a consistent state to a consistent
/// state, and a newly opened link is consistent.
pub proof fn lemma_steps_keep_consistency(s: Link, seen: u64)
    requires
        consistent(s),
    ensures
        consistent(opened()),
        consistent(link_lost(s, seen)),
        consistent(attempt_begun(s)),
        consistent(attempt_failed(s)),
        consistent(attempt_succeeded(s)),
{
}

/// The backoff between attempts never decreases: after a failed attempt it
/// is strictly longer, or it stays at the ceiling.
pub proof fn lemma_backoff_grows_to_ceiling(current: nat)
    requires
        1 <= current <= MAX_BACKOFF_MS,
    ensures
        current <= doubled_backoff(current) <= MAX_BACKOFF_MS,
        current < doubled_backoff(current) || current == MAX_BACKOFF_MS,
{
}

/// The same, for the whole series of attempts of one reconnect.
pub proof fn lemma_backoff_series_grows(start: nat, failures: nat)
    requires
        1 <= start <= MAX_BACKOFF_MS,
    ensures
        1 <= backoff_after(start, failures) <= MAX_BACKOFF_MS,
        backoff_after(start, failures) <= backoff_after(start, failures + 1),
        backoff_after(start, failures) < backoff_after(start, failures + 1) || backoff_after(
            start,
            failures,
        ) == MAX_BACKOFF_MS,
    decreases failures,
{
    if failures > 0 {
        lemma_backoff_series_grows(start, (failures - 1) as nat);
    }
}

/// A link that has lost its connection and then fails to connect
/// `failures` times in a row is about to make attempt number
/// `failures + 1`, after the backoff that this many doublings give.
pub proof fn lemma_state_after_failures(s: Link, failures: nat)
    requires
        consistent(s),
        !s.connected,
        s.attempt + failures <= u64::MAX,
    ensures
        consistent(after_failures(s, failures)),
        !after_failures(s, failures).connected,
        !after_failures(s, failures).in_flight || failures == 0,
        after_failures(s, failures).attempt == s.attempt + failures,
        after_failures(s, failures).backoff_ms == backoff_after(s.backoff_ms as nat, failures),
        after_failures(s, failures).generation == s.generation,
    decreases failures,
{
    if failures > 0 {
        lemma_state_after_failures(s, (failures - 1) as nat);
        let before = after_failures(s, (failures - 1) as nat);
    }
}

/// A link whose transport fails and recovers at the `k`-th connection
/// attempt: the failure of the live connection starts a reconnect; the
/// attempts are numbered 1 to `k`; attempt `k` is made after the floor
/// doubled `k - 1` times, up to the ceiling; its success leaves the link
/// connected, as the next generation, with the backoff back at the floor;
/// and the number of attempts reported is `k`.
pub proof fn lemma_recovers_at_attempt_k(s: Link, k: nat)
    requires
        consistent(s),
        s.connected,
        1 <= k < u64::MAX,
    ensures
        ({
            let lost = link_lost(s, s.generation);
            let waiting = after_failures(lost, (k - 1) as nat);
            let trying = attempt_begun(waiting);
            let back = attempt_succeeded(trying);
            &&& plan_for(waiting, Some(s.generation)) == Plan::Attempt {
                number: k as u64,
                backoff_ms: backoff_after(INITIAL_BACKOFF_MS as nat, (k - 1) as nat) as u64,
            }
            &&& plan_for(trying, Some(s.generation)) == Plan::Wait
            &&& trying.attempt == k
            &&& back.connected
            &&& back.backoff_ms == INITIAL_BACKOFF_MS
            &&& back.generation == next_generation(s.generation)
            &&& plan_for(back, Some(s.generation)) == Plan::Adopt
            &&& plan_for(back, Some(back.generation)) == Plan::Use
        }),
{
    let lost = link_lost(s, s.generation);
    lemma_state_after_failures(lost, (k - 1) as nat);
}

/// While one handle is connecting, every other handle waits: a second
/// attempt cannot begin before the first has ended, and no handle is told
/// to transfer on a connection that is gone.
pub proof fn lemma_one_attempt_at_a_time(s: Link, seen: Option<u64>)
    requires
        may_attempt(s),
    ensures
        !may_attempt(attempt_begun(s)),
        attempt_begun(attempt_begun(s)) == attempt_begun(s),
        plan_for(attempt_begun(s), seen) == Plan::Wait,
        may_attempt(attempt_failed(attempt_begun(s))),
{
}

/// A late report about a connection that has been replaced starts no
/// second reconnect.
pub proof fn lemma_stale_report_is_ignored(s: Link, seen: u64)
    requires
        seen != s.generation || !s.connected,
    ensures
        link_lost(s, seen) == s,
{
}

} // verus!

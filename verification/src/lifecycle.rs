//! The life of one listener: accepting connections, plain or through a TLS
//! handshake, and draining them once shutdown is asked for. The listener's
//! loop performs the actions; every decision is taken here.

use vstd::prelude::*;

verus! {

/// How a listener treats an accepted connection.
#[derive(Clone, Copy, Debug, PartialEq, Eq)]
pub enum ListenerMode {
    /// The connection goes to the HTTP layer as it is.
    Plain,
    /// The connection goes to the HTTP layer after a TLS handshake.
    Tls,
}

/// Where a listener stands.
#[derive(Clone, Copy, Debug, PartialEq, Eq)]
pub enum Phase {
    /// New connections are accepted.
    Accepting,
    /// Shutdown was asked for: no connection is accepted, those being served
    /// may finish.
    Draining,
    /// Nothing is accepted and nothing is being served.
    Stopped,
}

/// What happened at a listener.
#[derive(Clone, Copy, Debug, PartialEq, Eq)]
pub enum Event {
    /// The socket gave a new connection.
    Accepted,
    /// The socket failed to give a connection.
    AcceptFailed,
    /// A TLS handshake succeeded.
    HandshakeDone,
    /// A TLS handshake failed.
    HandshakeFailed,
    /// A connection that was being served has ended.
    ConnectionClosed,
    /// Shutdown is asked for.
    Shutdown,
}

/// What the listener's loop is to do next.
#[derive(Clone, Copy, Debug, PartialEq, Eq)]
pub enum Action {
    /// Nothing.
    Idle,
    /// Start the TLS handshake on the connection.
    Handshake,
    /// Hand the connection to the HTTP layer.
    Serve,
    /// Drop the connection.
    Discard,
    /// Stop accepting, drop the handshakes under way, let the connections
    /// being served finish.
    StopAccepting,
    /// Return: the listener is done.
    Finish,
}

/// The state of one listener.
#[derive(Clone, Copy, Debug, PartialEq, Eq)]
pub struct Acceptor {
    pub mode: ListenerMode,
    pub phase: Phase,
    /// Connections whose TLS handshake is under way.
    pub handshaking: u64,
    /// Connections handed to the HTTP layer that have not ended.
    pub serving: u64,
}

impl Acceptor {
    /// Handshakes are under way only at a TLS listener that accepts, and a
    /// stopped listener serves nothing.
    pub open spec fn wf(self) -> bool {
        &&& self.handshaking > 0 ==> self.mode == ListenerMode::Tls && self.phase
            == Phase::Accepting
        &&& self.phase == Phase::Stopped ==> self.serving == 0
    }

    /// The state and the action that follow `event`.
    pub open spec fn next(self, event: Event) -> (Acceptor, Action) {
        match self.phase {
            Phase::Accepting => match event {
                Event::Accepted => match self.mode {
                    ListenerMode::Plain => if self.serving < u64::MAX {
                        (Acceptor { serving: (self.serving + 1) as u64, ..self }, Action::Serve)
                    } else {
                        (self, Action::Discard)
                    },
                    ListenerMode::Tls => if self.handshaking < u64::MAX {
                        (
                            Acceptor { handshaking: (self.handshaking + 1) as u64, ..self },
                            Action::Handshake,
                        )
                    } else {
                        (self, Action::Discard)
                    },
                },
                Event::AcceptFailed => (self, Action::Idle),
                Event::HandshakeDone => if self.handshaking > 0 && self.serving < u64::MAX {
                    (
                        Acceptor {
                            handshaking: (self.handshaking - 1) as u64,
                            serving: (self.serving + 1) as u64,
                            ..self
                        },
                        Action::Serve,
                    )
                } else if self.handshaking > 0 {
                    (
                        Acceptor { handshaking: (self.handshaking - 1) as u64, ..self },
                        Action::Discard,
                    )
                } else {
                    (self, Action::Discard)
                },
                Event::HandshakeFailed => if self.handshaking > 0 {
                    (
                        Acceptor { handshaking: (self.handshaking - 1) as u64, ..self },
                        Action::Discard,
                    )
                } else {
                    (self, Action::Discard)
                },
                Event::ConnectionClosed => if self.serving > 0 {
                    (Acceptor { serving: (self.serving - 1) as u64, ..self }, Action::Idle)
                } else {
                    (self, Action::Idle)
                },
                Event::Shutdown => if self.serving > 0 {
                    (
                        Acceptor { phase: Phase::Draining, handshaking: 0, ..self },
                        Action::StopAccepting,
                    )
                } else {
                    (Acceptor { phase: Phase::Stopped, handshaking: 0, ..self }, Action::Finish)
                },
            },
            Phase::Draining => match event {
                Event::Accepted | Event::HandshakeDone | Event::HandshakeFailed => (
                    self,
                    Action::Discard,
                ),
                Event::AcceptFailed | Event::Shutdown => (self, Action::Idle),
                Event::ConnectionClosed => if self.serving > 1 {
                    (Acceptor { serving: (self.serving - 1) as u64, ..self }, Action::Idle)
                } else {
                    (Acceptor { phase: Phase::Stopped, serving: 0, ..self }, Action::Finish)
                },
            },
            Phase::Stopped => match event {
                Event::Accepted | Event::HandshakeDone | Event::HandshakeFailed => (
                    self,
                    Action::Discard,
                ),
                Event::AcceptFailed | Event::ConnectionClosed | Event::Shutdown => (
                    self,
                    Action::Idle,
                ),
            },
        }
    }

    /// A listener that accepts and has no connection yet.
    pub fn new(mode: ListenerMode) -> (acceptor: Acceptor)
        ensures
            acceptor == (Acceptor { mode, phase: Phase::Accepting, handshaking: 0, serving: 0 }),
            acceptor.wf(),
    {
        Acceptor { mode, phase: Phase::Accepting, handshaking: 0, serving: 0 }
    }

    /// Takes `event` in and says what the loop is to do.
    pub fn step(&mut self, event: Event) -> (action: Action)
        ensures
            (*final(self), action) == old(self).next(event),
            old(self).wf() ==> final(self).wf(),
    {
        match self.phase {
            Phase::Accepting => match event {
                Event::Accepted => match self.mode {
                    ListenerMode::Plain => {
                        if self.serving < u64::MAX {
                            self.serving = self.serving + 1;
                            Action::Serve
                        } else {
                            Action::Discard
                        }
                    },
                    ListenerMode::Tls => {
                        if self.handshaking < u64::MAX {
                            self.handshaking = self.handshaking + 1;
                            Action::Handshake
                        } else {
                            Action::Discard
                        }
                    },
                },
                Event::AcceptFailed => Action::Idle,
                Event::HandshakeDone => {
                    if self.handshaking > 0 {
                        self.handshaking = self.handshaking - 1;
                        if self.serving < u64::MAX {
                            self.serving = self.serving + 1;
                            Action::Serve
                        } else {
                            Action::Discard
                        }
                    } else {
                        Action::Discard
                    }
                },
                Event::HandshakeFailed => {
                    if self.handshaking > 0 {
                        self.handshaking = self.handshaking - 1;
                    }
                    Action::Discard
                },
                Event::ConnectionClosed => {
                    if self.serving > 0 {
                        self.serving = self.serving - 1;
                    }
                    Action::Idle
                },
                Event::Shutdown => {
                    self.handshaking = 0;
                    if self.serving > 0 {
                        self.phase = Phase::Draining;
                        Action::StopAccepting
                    } else {
                        self.phase = Phase::Stopped;
                        Action::Finish
                    }
                },
            },
            Phase::Draining => match event {
                Event::Accepted | Event::HandshakeDone | Event::HandshakeFailed => Action::Discard,
                Event::AcceptFailed | Event::Shutdown => Action::Idle,
                Event::ConnectionClosed => {
                    if self.serving > 1 {
                        self.serving = self.serving - 1;
                        Action::Idle
                    } else {
                        self.serving = 0;
                        self.phase = Phase::Stopped;
                        Action::Finish
                    }
                },
            },
            Phase::Stopped => match event {
                Event::Accepted | Event::HandshakeDone | Event::HandshakeFailed => Action::Discard,
                Event::AcceptFailed | Event::ConnectionClosed | Event::Shutdown => Action::Idle,
            },
        }
    }
}

/// The state after the events of `trace`, in their order.
pub open spec fn run(start: Acceptor, trace: Seq<Event>) -> Acceptor
    decreases trace.len(),
{
    if trace.len() == 0 {
        start
    } else {
        run(start, trace.drop_last()).next(trace.last()).0
    }
}

/// Every step keeps a well-formed listener well-formed.
pub proof fn lemma_next_keeps_wf(state: Acceptor, event: Event)
    requires
        state.wf(),
    ensures
        state.next(event).0.wf(),
{
}

/// A failed handshake costs that connection and nothing else: the connection
/// is dropped, the listener stays in its phase, and what it serves stays.
pub proof fn lemma_failed_handshake_is_contained(state: Acceptor)
    ensures
        state.next(Event::HandshakeFailed).1 == Action::Discard,
        state.next(Event::HandshakeFailed).0.phase == state.phase,
        state.next(Event::HandshakeFailed).0.serving == state.serving,
        state.next(Event::HandshakeFailed).0.mode == state.mode,
{
}

/// Nothing but shutdown ends accepting: whatever else happens, failures
/// included, a listener that accepts goes on accepting.
pub proof fn lemma_only_shutdown_ends_accepting(state: Acceptor, trace: Seq<Event>)
    requires
        state.phase == Phase::Accepting,
        forall|i: int| 0 <= i < trace.len() ==> trace[i] != Event::Shutdown,
    ensures
        run(state, trace).phase == Phase::Accepting,
        run(state, trace).mode == state.mode,
    decreases trace.len(),
{
    if trace.len() > 0 {
        let front = trace.drop_last();
        assert forall|i: int| 0 <= i < front.len() implies front[i] != Event::Shutdown by {
            assert(front[i] == trace[i]);
        }
        lemma_only_shutdown_ends_accepting(state, front);
        assert(trace.last() == trace[trace.len() - 1]);
    }
}

/// A failed accept changes nothing and is not tried again.
pub proof fn lemma_failed_accept_is_contained(state: Acceptor)
    ensures
        state.next(Event::AcceptFailed) == (state, Action::Idle),
{
}

/// A plain listener never asks for a handshake; a TLS listener never serves
/// a connection that has not finished one.
pub proof fn lemma_mode_decides(state: Acceptor, event: Event)
    ensures
        state.mode == ListenerMode::Plain ==> state.next(event).1 != Action::Handshake,
        state.mode == ListenerMode::Tls && state.next(event).1 == Action::Serve ==> event
            == Event::HandshakeDone,
        state.mode == ListenerMode::Plain && state.wf() && state.next(event).1 == Action::Serve
            ==> event == Event::Accepted,
{
}

/// Shutdown fires once: it ends accepting at once, and asked for again it
/// changes nothing.
pub proof fn lemma_shutdown_fires_once(state: Acceptor)
    ensures
        state.next(Event::Shutdown).0.phase != Phase::Accepting,
        state.next(Event::Shutdown).0.serving == state.serving,
        state.next(Event::Shutdown).0.next(Event::Shutdown) == (
            state.next(Event::Shutdown).0,
            Action::Idle,
        ),
{
}

/// After shutdown, whatever happens, the listener never accepts again: no
/// connection is served or brought to a handshake, and nothing is added to
/// what is being served.
pub proof fn lemma_nothing_new_after_shutdown(state: Acceptor, trace: Seq<Event>, event: Event)
    requires
        state.phase != Phase::Accepting,
    ensures
        run(state, trace).phase != Phase::Accepting,
        run(state, trace).serving <= state.serving,
        run(state, trace).next(event).1 != Action::Serve,
        run(state, trace).next(event).1 != Action::Handshake,
    decreases trace.len(),
{
    if trace.len() > 0 {
        lemma_nothing_new_after_shutdown(state, trace.drop_last(), trace.last());
    }
}

/// A draining listener finishes exactly when the last connection it serves
/// has ended.
pub proof fn lemma_drain_finishes(state: Acceptor)
    requires
        state.wf(),
        state.phase == Phase::Draining,
    ensures
        state.next(Event::ConnectionClosed).1 == Action::Finish <==> state.serving <= 1,
        state.next(Event::ConnectionClosed).1 == Action::Finish ==> state.next(
            Event::ConnectionClosed,
        ).0.phase == Phase::Stopped,
        state.serving > 1 ==> state.next(Event::ConnectionClosed).0 == (Acceptor {
            serving: (state.serving - 1) as u64,
            ..state
        }),
{
}

/// A listener that is asked to shut down while it serves `serving`
/// connections is done after just that many of them have ended.
pub proof fn lemma_drain_takes_as_long_as_served(state: Acceptor, closed: nat)
    requires
        state.wf(),
        state.phase == Phase::Draining,
        state.serving >= 1,
        closed <= state.serving,
    ensures
        run(state, Seq::new(closed, |i: int| Event::ConnectionClosed)).phase == if closed
            == state.serving {
            Phase::Stopped
        } else {
            Phase::Draining
        },
        run(state, Seq::new(closed, |i: int| Event::ConnectionClosed)).serving == state.serving
            - closed,
    decreases closed,
{
    let trace = Seq::new(closed, |i: int| Event::ConnectionClosed);
    if closed > 0 {
        let front = Seq::new((closed - 1) as nat, |i: int| Event::ConnectionClosed);
        assert(trace.drop_last() =~= front);
        lemma_drain_takes_as_long_as_served(state, (closed - 1) as nat);
    }
}

} // verus!

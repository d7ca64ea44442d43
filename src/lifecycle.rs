use vstd::prelude::*;

verus! {

/// Where the server is in its life.
#[derive(Clone, Copy, Debug, PartialEq, Eq, Structural)]
pub enum Phase {
    /// Accepting connections and serving requests.
    Serving,
    /// A shutdown was asked for: no new requests are taken, the ones in
    /// flight run to the end.
    Draining,
    /// The process may exit.
    Stopped,
}

/// Something that happened to the server.
#[derive(Clone, Copy, Debug, PartialEq, Eq, Structural)]
pub enum ServerEvent {
    /// A new request wants to be served.
    RequestArrived,
    /// A request in flight has sent its response.
    RequestDone,
    /// An interrupt or terminate signal came in.
    Shutdown,
}

/// What the server does in answer to an event.
#[derive(Clone, Copy, Debug, PartialEq, Eq, Structural)]
pub enum ServerAction {
    /// Serve the request that arrived.
    Serve,
    /// Turn the request that arrived away.
    Reject,
    /// Nothing to do but keep going.
    Wait,
    /// Exit the process now.
    Exit,
}

/// The lifecycle of one server process.
pub struct Lifecycle {
    /// Whether a shutdown waits for the requests in flight.
    pub graceful: bool,
    pub phase: Phase,
    /// Requests taken and not yet done.
    pub in_flight: u64,
}

impl Lifecycle {
    /// Draining happens only under graceful shutdown and only while a request
    /// is still in flight.
    pub open spec fn wf(&self) -> bool {
        self.phase == Phase::Draining ==> (self.graceful && self.in_flight > 0)
    }

    /// A server that has just bound its socket. Graceful shutdown is chosen by
    /// the runtime mode: production waits for requests in flight.
    pub fn new(graceful: bool) -> (r: Lifecycle)
        ensures
            r.wf(),
            r.graceful == graceful,
            r.phase == Phase::Serving,
            r.in_flight == 0,
    {
        Lifecycle { graceful, phase: Phase::Serving, in_flight: 0 }
    }

    /// Whether requests are still taken.
    pub fn accepting(&self) -> (r: bool)
        ensures
            r == (self.phase == Phase::Serving),
    {
        self.phase == Phase::Serving
    }

    /// Reacts to one event of a server that has not stopped.
    pub fn handle(&mut self, event: ServerEvent) -> (r: ServerAction)
        requires
            old(self).wf(),
            old(self).phase != Phase::Stopped,
            event == ServerEvent::RequestDone ==> old(self).in_flight > 0,
        ensures
            final(self).wf(),
            final(self).graceful == old(self).graceful,
            (*final(self), r) == handled(*old(self), event),
    {
        match event {
            ServerEvent::RequestArrived => {
                if self.phase == Phase::Serving && self.in_flight < u64::MAX {
                    self.in_flight = self.in_flight + 1;
                    ServerAction::Serve
                } else {
                    ServerAction::Reject
                }
            },
            ServerEvent::RequestDone => {
                self.in_flight = self.in_flight - 1;
                if self.phase == Phase::Draining && self.in_flight == 0 {
                    self.phase = Phase::Stopped;
                    ServerAction::Exit
                } else {
                    ServerAction::Wait
                }
            },
            ServerEvent::Shutdown => {
                if !self.graceful {
                    self.phase = Phase::Stopped;
                    ServerAction::Exit
                } else if self.phase == Phase::Draining {
                    ServerAction::Wait
                } else if self.in_flight == 0 {
                    self.phase = Phase::Stopped;
                    ServerAction::Exit
                } else {
                    self.phase = Phase::Draining;
                    ServerAction::Wait
                }
            },
        }
    }
}

/// The state after an event and the action taken, for a server that has not
/// stopped.
pub open spec fn handled(s: Lifecycle, event: ServerEvent) -> (Lifecycle, ServerAction) {
    match event {
        ServerEvent::RequestArrived => if s.phase == Phase::Serving && s.in_flight < u64::MAX {
            (Lifecycle { in_flight: (s.in_flight + 1) as u64, ..s }, ServerAction::Serve)
        } else {
            (s, ServerAction::Reject)
        },
        ServerEvent::RequestDone => {
            let n = (s.in_flight - 1) as u64;
            if s.phase == Phase::Draining && n == 0 {
                (Lifecycle { in_flight: n, phase: Phase::Stopped, ..s }, ServerAction::Exit)
            } else {
                (Lifecycle { in_flight: n, ..s }, ServerAction::Wait)
            }
        },
        ServerEvent::Shutdown => if !s.graceful {
            (Lifecycle { phase: Phase::Stopped, ..s }, ServerAction::Exit)
        } else if s.phase == Phase::Draining {
            (s, ServerAction::Wait)
        } else if s.in_flight == 0 {
            (Lifecycle { phase: Phase::Stopped, ..s }, ServerAction::Exit)
        } else {
            (Lifecycle { phase: Phase::Draining, ..s }, ServerAction::Wait)
        },
    }
}

/// Under graceful shutdown, a signal that comes while requests are in flight
/// stops the taking of new requests at once, keeps every request in flight,
/// and does not exit.
pub proof fn lemma_graceful_shutdown_keeps_in_flight(s: Lifecycle)
    requires
        s.wf(),
        s.graceful,
        s.phase == Phase::Serving,
        s.in_flight > 0,
    ensures
        handled(s, ServerEvent::Shutdown).0.phase == Phase::Draining,
        handled(s, ServerEvent::Shutdown).0.in_flight == s.in_flight,
        handled(s, ServerEvent::Shutdown).1 == ServerAction::Wait,
        handled(handled(s, ServerEvent::Shutdown).0, ServerEvent::RequestArrived).1
            == ServerAction::Reject,
{
}

/// While draining, new requests are turned away, a second signal changes
/// nothing, and the process exits exactly when the last request in flight is
/// done.
pub proof fn lemma_draining_exits_after_last(s: Lifecycle)
    requires
        s.wf(),
        s.phase == Phase::Draining,
    ensures
        handled(s, ServerEvent::RequestArrived) == (s, ServerAction::Reject),
        handled(s, ServerEvent::Shutdown) == (s, ServerAction::Wait),
        (handled(s, ServerEvent::RequestDone).1 == ServerAction::Exit) <==> s.in_flight == 1,
{
}

/// Under graceful shutdown the process never exits with a request in flight.
pub proof fn lemma_graceful_exit_only_when_idle(s: Lifecycle, event: ServerEvent)
    requires
        s.wf(),
        s.graceful,
        s.phase != Phase::Stopped,
        event == ServerEvent::RequestDone ==> s.in_flight > 0,
    ensures
        handled(s, event).1 == ServerAction::Exit ==> handled(s, event).0.in_flight == 0,
{
}

/// Without graceful shutdown a signal ends the process at once, whatever is
/// in flight.
pub proof fn lemma_immediate_shutdown(s: Lifecycle)
    requires
        !s.graceful,
        s.phase != Phase::Stopped,
    ensures
        handled(s, ServerEvent::Shutdown).1 == ServerAction::Exit,
        handled(s, ServerEvent::Shutdown).0.phase == Phase::Stopped,
        handled(s, ServerEvent::Shutdown).0.in_flight == s.in_flight,
{
}

} // verus!

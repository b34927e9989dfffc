//! The server's decisions: what it makes of a request, how it numbers its
//! sessions, and when it stops accepting streams on a connection.

use vstd::prelude::*;
use crate::common::remote::{Protocol, RemoteRequest, RemoteView, ResponseView};
use crate::common::tunnel::{
    lemma_responder_run_steps, lemma_unserved_stream_ends, responder_next, responder_run,
    reverse_refusal_text, Dialer, Listener, ResponderEvent, ResponderPhase, ServerRole,
    TunnelFault, Verdict,
};

verus! {

/// What the server does for the accepted request `d`.
///
/// | reversed | protocol | SOCKS5 | role |
/// |---|---|---|---|
/// | no | TCP | any | dial over TCP |
/// | no | UDP | any | relay datagrams |
/// | yes | TCP | yes | listen with the SOCKS5 frontend |
/// | yes | TCP | no | listen on TCP |
/// | yes | UDP | any | listen on UDP |
pub open spec fn server_role_of(d: RemoteView) -> ServerRole {
    if !d.reversed {
        if d.protocol == Protocol::Tcp {
            ServerRole::Dial(Dialer::Tcp)
        } else {
            ServerRole::Dial(Dialer::Udp)
        }
    } else if d.protocol == Protocol::Udp {
        ServerRole::Listen(Listener::Udp)
    } else if d.is_socks() {
        ServerRole::Listen(Listener::Socks)
    } else {
        ServerRole::Listen(Listener::Tcp)
    }
}

/// What the server makes of the request `d`: it refuses a reversed request
/// unless reversed rules are allowed, and serves every other in its role.
pub open spec fn server_verdict_of(d: RemoteView, allow_reverse: bool) -> Verdict {
    if d.reversed && !allow_reverse {
        Verdict::RefuseReverse
    } else {
        Verdict::Serve(server_role_of(d))
    }
}

/// Decides what the server makes of a request that a client sent.
pub fn server_verdict(request: &RemoteRequest, allow_reverse: bool) -> (r: Verdict)
    ensures
        r == server_verdict_of(request@, allow_reverse),
{
    if request.reversed && !allow_reverse {
        return Verdict::RefuseReverse;
    }
    let role = if !request.reversed {
        if request.protocol.is_tcp() {
            ServerRole::Dial(Dialer::Tcp)
        } else {
            ServerRole::Dial(Dialer::Udp)
        }
    } else if !request.protocol.is_tcp() {
        ServerRole::Listen(Listener::Udp)
    } else if request.is_socks() {
        ServerRole::Listen(Listener::Socks)
    } else {
        ServerRole::Listen(Listener::Tcp)
    };
    Verdict::Serve(role)
}

/// A server that does not allow reversed rules answers every reversed request
/// with the refusal `Reverse remotes are not allowed`, and the stream ends
/// with that answer: whatever happens on it, no listener is bound for it.
pub proof fn lemma_reverse_refused_without_listener(d: RemoteView, events: Seq<ResponderEvent>)
    requires
        d.reversed,
    ensures
        server_verdict_of(d, false).response_spec() == ResponseView::Refused(
            reverse_refusal_text(),
        ),
        responder_run(server_verdict_of(d, false), events) == seq![ResponderPhase::SendResponse],
        forall|i: int|
            0 <= i < responder_run(server_verdict_of(d, false), events).len()
                ==> #[trigger] responder_run(server_verdict_of(d, false), events)[i]
                != ResponderPhase::Listen,
{
    lemma_unserved_stream_ends(server_verdict_of(d, false), events);
}

/// The server binds a listener only for a reversed request, and only where
/// reversed rules are allowed.
pub proof fn lemma_listener_only_when_allowed(
    d: RemoteView,
    allow_reverse: bool,
    events: Seq<ResponderEvent>,
    i: int,
)
    requires
        0 <= i < responder_run(server_verdict_of(d, allow_reverse), events).len(),
        responder_run(server_verdict_of(d, allow_reverse), events)[i] == ResponderPhase::Listen,
    ensures
        d.reversed,
        allow_reverse,
{
    let verdict = server_verdict_of(d, allow_reverse);
    lemma_responder_run_steps(verdict, events);
    let run = responder_run(verdict, events);
    assert(i > 0);
    assert(responder_next(verdict, run[i - 1], events[i - 1]) == Ok::<
        ResponderPhase,
        TunnelFault,
    >(run[i]));
}

/// A request that is not reversed is never refused, and a server that allows
/// reversed rules refuses none.
pub proof fn lemma_accepted_otherwise(d: RemoteView, allow_reverse: bool)
    requires
        !d.reversed || allow_reverse,
    ensures
        server_verdict_of(d, allow_reverse) is Serve,
        server_verdict_of(d, allow_reverse).response_spec() == ResponseView::Accepted,
{
}

/// The numbers that the server gives its sessions, one per accepted
/// connection, in the order of acceptance.
#[derive(Debug)]
pub struct SessionCounter {
    next: usize,
}

impl SessionCounter {
    /// The number of the next session.
    pub closed spec fn upcoming(&self) -> usize {
        self.next
    }

    /// A counter whose first session is number 0.
    pub fn new() -> (r: SessionCounter)
        ensures
            r.upcoming() == 0,
    {
        SessionCounter { next: 0 }
    }

    /// Numbers a session: gives the upcoming number, and the one after it is
    /// upcoming next. After the greatest number the count starts again at 0.
    pub fn open_session(&mut self) -> (id: usize)
        ensures
            id == old(self).upcoming(),
            old(self).upcoming() < usize::MAX ==> final(self).upcoming() == old(self).upcoming()
                + 1,
            old(self).upcoming() == usize::MAX ==> final(self).upcoming() == 0,
    {
        let id: usize = self.next;
        self.next = if id == usize::MAX {
            0
        } else {
            id + 1
        };
        id
    }
}

/// How an attempt to accept the next stream of a connection ended.
#[derive(Clone, Copy, Debug, PartialEq, Eq, Structural)]
pub enum AcceptOutcome {
    /// A stream was accepted.
    Stream,
    /// The client closed the connection.
    ApplicationClosed,
    /// The attempt failed in another way.
    Failed,
}

/// What the server does with a connection after an attempt to accept a
/// stream.
#[derive(Clone, Copy, Debug, PartialEq, Eq, Structural)]
pub enum AcceptStep {
    /// Serve the stream in a task of its own and accept the next.
    Serve,
    /// Leave the connection; nothing went wrong.
    Leave,
    /// Report the failure and leave the connection.
    Abandon,
}

/// Decides what follows an attempt to accept a stream: a stream is served
/// and the next awaited; a connection that the client closed is left in
/// peace; any other failure is reported and ends the connection's loop.
pub fn on_accept(outcome: AcceptOutcome) -> (r: AcceptStep)
    ensures
        outcome == AcceptOutcome::Stream ==> r == AcceptStep::Serve,
        outcome == AcceptOutcome::ApplicationClosed ==> r == AcceptStep::Leave,
        outcome == AcceptOutcome::Failed ==> r == AcceptStep::Abandon,
{
    match outcome {
        AcceptOutcome::Stream => AcceptStep::Serve,
        AcceptOutcome::ApplicationClosed => AcceptStep::Leave,
        AcceptOutcome::Failed => AcceptStep::Abandon,
    }
}

} // verus!

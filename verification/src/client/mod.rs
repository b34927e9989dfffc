//! The client's decisions: what it does for each rule of its configuration,
//! what it makes of a stream that the server opens, and how it shuts down.

use vstd::prelude::*;
use crate::common::remote::{Protocol, RemoteRequest, RemoteView};
use crate::common::tunnel::{
    lemma_unserved_stream_ends, responder_run, ClientRole, Dialer, Listener, ResponderEvent,
    ResponderPhase, ServerRole, Verdict,
};

verus! {

/// The application error code with which the client closes its connection
/// when it is told to shut down.
pub const CLOSE_CODE: u32 = 130;

/// The reason that goes with `CLOSE_CODE`, as text.
pub open spec fn close_reason_text() -> Seq<char> {
    "client received ^C"@
}

/// The reason that goes with `CLOSE_CODE`.
pub fn close_reason() -> (r: &'static str)
    ensures
        r@ == close_reason_text(),
{
    "client received ^C"
}

/// What the client does for the rule `d`.
///
/// | reversed | protocol | SOCKS5 | role |
/// |---|---|---|---|
/// | yes | any | any | ask the server to listen |
/// | no | UDP | any | listen on UDP |
/// | no | TCP | yes | listen with the SOCKS5 frontend |
/// | no | TCP | no | listen on TCP |
pub open spec fn client_role_of(d: RemoteView) -> ClientRole {
    if d.reversed {
        ClientRole::AskReverse
    } else if d.protocol == Protocol::Udp {
        ClientRole::Listen(Listener::Udp)
    } else if d.is_socks() {
        ClientRole::Listen(Listener::Socks)
    } else {
        ClientRole::Listen(Listener::Tcp)
    }
}

/// Decides what the client does for a rule of its configuration.
pub fn client_role(remote: &RemoteRequest) -> (r: ClientRole)
    ensures
        r == client_role_of(remote@),
{
    if remote.reversed {
        ClientRole::AskReverse
    } else if !remote.protocol.is_tcp() {
        ClientRole::Listen(Listener::Udp)
    } else if remote.is_socks() {
        ClientRole::Listen(Listener::Socks)
    } else {
        ClientRole::Listen(Listener::Tcp)
    }
}

/// The roles of the rules `remotes`, in their order: the task that the client
/// starts for each.
pub fn plan_roles(remotes: &Vec<RemoteRequest>) -> (r: Vec<ClientRole>)
    ensures
        r@.len() == remotes@.len(),
        forall|i: int| 0 <= i < r@.len() ==> #[trigger] r@[i] == client_role_of(remotes@[i]@),
{
    let mut r: Vec<ClientRole> = Vec::new();
    let mut i: usize = 0;
    while i < remotes.len()
        invariant
            i <= remotes.len(),
            r@.len() == i,
            forall|k: int| 0 <= k < i ==> #[trigger] r@[k] == client_role_of(remotes@[k]@),
        decreases remotes.len() - i,
    {
        r.push(client_role(&remotes[i]));
        i = i + 1;
    }
    r
}

/// What the client makes of the request `d` on a stream that the server
/// opened: a reversed request is accepted and its target dialed, over TCP or
/// UDP as the request says; one that is not reversed has no business on such
/// a stream and is dropped.
pub open spec fn dynamic_verdict_of(d: RemoteView) -> Verdict {
    if !d.reversed {
        Verdict::DropForward
    } else if d.protocol == Protocol::Tcp {
        Verdict::Serve(ServerRole::Dial(Dialer::Tcp))
    } else {
        Verdict::Serve(ServerRole::Dial(Dialer::Udp))
    }
}

/// Decides what the client makes of a request on a stream that the server
/// opened.
pub fn dynamic_verdict(request: &RemoteRequest) -> (r: Verdict)
    ensures
        r == dynamic_verdict_of(request@),
{
    if !request.reversed {
        Verdict::DropForward
    } else if request.protocol.is_tcp() {
        Verdict::Serve(ServerRole::Dial(Dialer::Tcp))
    } else {
        Verdict::Serve(ServerRole::Dial(Dialer::Udp))
    }
}

/// The client dials a target for a stream that the server opened only where
/// the request on it is reversed.
pub proof fn lemma_dial_only_for_reversed(d: RemoteView, events: Seq<ResponderEvent>, i: int)
    requires
        0 <= i < responder_run(dynamic_verdict_of(d), events).len(),
        responder_run(dynamic_verdict_of(d), events)[i] != ResponderPhase::SendResponse,
    ensures
        d.reversed,
{
    if !d.reversed {
        lemma_unserved_stream_ends(dynamic_verdict_of(d), events);
    }
}

/// What ends the client's run.
#[derive(Clone, Copy, Debug, PartialEq, Eq, Structural)]
pub enum ClientEvent {
    /// The user asked the process to stop.
    Shutdown,
    /// Every task has finished by itself.
    TasksFinished,
}

/// How the client's run ends.
#[derive(Clone, Copy, Debug, PartialEq, Eq, Structural)]
pub enum ClientExit {
    /// Abort every task, close the connection with `code` and the close
    /// reason, and wait until the endpoint is idle.
    AbortAndClose { code: u32 },
    /// Nothing is left to do.
    Leave,
}

/// Decides how the client's run ends on `event`: a shutdown aborts the tasks
/// and closes the connection with `CLOSE_CODE`; tasks that have all finished
/// leave nothing to close.
pub fn on_client_event(event: ClientEvent) -> (r: ClientExit)
    ensures
        event == ClientEvent::Shutdown ==> r == (ClientExit::AbortAndClose { code: CLOSE_CODE }),
        event == ClientEvent::TasksFinished ==> r == ClientExit::Leave,
{
    match event {
        ClientEvent::Shutdown => ClientExit::AbortAndClose { code: CLOSE_CODE },
        ClientEvent::TasksFinished => ClientExit::Leave,
    }
}

} // verus!

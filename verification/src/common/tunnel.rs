//! The control protocol of one stream: a request, the answer to it, a start
//! marker where the flow has one, then payload. Both ends follow it phase by
//! phase; what each phase does to the stream is done by the caller, and what
//! comes next is decided here.

use vstd::prelude::*;
use vstd::string::StringExecFns;
use crate::common::remote::{RemoteResponse, RemoteStart, ResponseView};

verus! {

/// The most bytes that a request or a response may hold: the peer reads it in
/// one piece, into a buffer of this size.
pub const MAX_MESSAGE_LEN: usize = 1024;

/// What a listening end binds for a rule. It opens a stream for each flow
/// that arrives.
#[derive(Clone, Copy, Debug, PartialEq, Eq, Structural)]
pub enum Listener {
    /// A TCP listener behind which each application names its target by
    /// SOCKS5.
    Socks,
    /// A TCP listener; each connection goes to the target of the rule.
    Tcp,
    /// A UDP socket; the datagrams of its one peer go to the target of the
    /// rule.
    Udp,
}

/// How a dialing end reaches the target of a request that it accepted.
#[derive(Clone, Copy, Debug, PartialEq, Eq, Structural)]
pub enum Dialer {
    /// Waits for the start marker, then connects over TCP and relays.
    Tcp,
    /// Relays datagrams between the stream and the target.
    Udp,
}

/// What the client does for a rule of its configuration.
#[derive(Clone, Copy, Debug, PartialEq, Eq, Structural)]
pub enum ClientRole {
    /// It listens.
    Listen(Listener),
    /// It asks the server to listen: it sends the request and closes its
    /// sending half. The flows come back on streams that the server opens.
    AskReverse,
}

/// What the end that accepted a request does for it.
#[derive(Clone, Copy, Debug, PartialEq, Eq, Structural)]
pub enum ServerRole {
    /// It reaches the target for the stream that carried the request.
    Dial(Dialer),
    /// It listens, and opens streams back to the peer.
    Listen(Listener),
}

/// What the reader of a request makes of it.
#[derive(Clone, Copy, Debug, PartialEq, Eq, Structural)]
pub enum Verdict {
    /// Accept, and serve in this role.
    Serve(ServerRole),
    /// Refuse: the request is reversed, and reversed rules are not allowed.
    RefuseReverse,
    /// Accept, then drop the stream: it was opened by the server, and the
    /// request is not reversed.
    DropForward,
}

/// How the flow of a stream goes on once the request is accepted, as its
/// opener sees it.
#[derive(Clone, Copy, Debug, PartialEq, Eq, Structural)]
pub enum FlowKind {
    /// A TCP connection of an application.
    Tcp,
    /// A TCP connection of an application that came through the SOCKS5
    /// frontend, which still waits for its reply.
    Socks,
    /// The datagrams of one peer.
    Udp,
    /// No payload: the request asks the peer to listen.
    Reverse,
}

/// Why a flow was given up.
#[derive(Clone, Debug, PartialEq, Eq)]
pub enum TunnelError {
    /// The stream gave nothing where a message was due.
    EmptyMessage,
    /// A message holds more bytes than the peer reads in one piece.
    MessageTooLong,
    /// The request is reversed and the server takes no reversed rules.
    ReverseNotAllowed,
    /// The peer refused the request, for the reason given.
    RemoteFailed(String),
    /// The server opened a stream for a rule that is not reversed.
    NotReversed,
    /// An event came in a phase that does not expect it.
    OutOfOrder,
}

/// The mathematical content of a `TunnelError`.
pub enum TunnelFault {
    EmptyMessage,
    MessageTooLong,
    ReverseNotAllowed,
    RemoteFailed(Seq<char>),
    NotReversed,
    OutOfOrder,
}

impl View for TunnelError {
    type V = TunnelFault;

    open spec fn view(&self) -> TunnelFault {
        match self {
            TunnelError::EmptyMessage => TunnelFault::EmptyMessage,
            TunnelError::MessageTooLong => TunnelFault::MessageTooLong,
            TunnelError::ReverseNotAllowed => TunnelFault::ReverseNotAllowed,
            TunnelError::RemoteFailed(reason) => TunnelFault::RemoteFailed(reason@),
            TunnelError::NotReversed => TunnelFault::NotReversed,
            TunnelError::OutOfOrder => TunnelFault::OutOfOrder,
        }
    }
}

/// The reason with which a server refuses a reversed rule.
pub open spec fn reverse_refusal_text() -> Seq<char> {
    "Reverse remotes are not allowed"@
}

/// What `TunnelError::message` says of each error.
pub open spec fn tunnel_error_text(e: TunnelFault) -> Seq<char> {
    match e {
        TunnelFault::EmptyMessage => "Stream closed before a message arrived"@,
        TunnelFault::MessageTooLong => "Message exceeds 1024 bytes"@,
        TunnelFault::ReverseNotAllowed => reverse_refusal_text(),
        TunnelFault::RemoteFailed(reason) => "Remote tunnel error: "@ + reason,
        TunnelFault::NotReversed => "received dynamic remote that is not reversed!"@,
        TunnelFault::OutOfOrder => "Event out of order"@,
    }
}

impl TunnelError {
    /// The error in words. A refusal by the peer reads `Remote tunnel error: `
    /// and the peer's reason.
    pub fn message(&self) -> (r: String)
        ensures
            r@ == tunnel_error_text(self@),
    {
        match self {
            TunnelError::EmptyMessage => String::from_str("Stream closed before a message arrived"),
            TunnelError::MessageTooLong => String::from_str("Message exceeds 1024 bytes"),
            TunnelError::ReverseNotAllowed => String::from_str("Reverse remotes are not allowed"),
            TunnelError::RemoteFailed(reason) => {
                let mut r = String::from_str("Remote tunnel error: ");
                r.append(reason.as_str());
                r
            },
            TunnelError::NotReversed => String::from_str(
                "received dynamic remote that is not reversed!",
            ),
            TunnelError::OutOfOrder => String::from_str("Event out of order"),
        }
    }
}

/// Judges the length of a request or a response, read or about to be
/// written: it holds at least one byte and at most `MAX_MESSAGE_LEN`.
pub fn check_message_len(len: usize) -> (r: Result<(), TunnelError>)
    ensures
        1 <= len <= MAX_MESSAGE_LEN ==> r is Ok,
        len == 0 ==> r == Err::<(), TunnelError>(TunnelError::EmptyMessage),
        len > MAX_MESSAGE_LEN ==> r == Err::<(), TunnelError>(TunnelError::MessageTooLong),
{
    if len == 0 {
        Err(TunnelError::EmptyMessage)
    } else if len > MAX_MESSAGE_LEN {
        Err(TunnelError::MessageTooLong)
    } else {
        Ok(())
    }
}

/// What a response means to the side that asked: nothing to object to where
/// the peer accepted, else the peer's refusal as an error.
pub fn judge_response(response: RemoteResponse) -> (r: Result<(), TunnelError>)
    ensures
        match response@ {
            ResponseView::Accepted => r is Ok,
            ResponseView::Refused(reason) => r is Err && r->Err_0@ == TunnelFault::RemoteFailed(
                reason,
            ),
        },
{
    match response {
        RemoteResponse::RemoteOk => Ok(()),
        RemoteResponse::RemoteFailed(reason) => Err(TunnelError::RemoteFailed(reason)),
    }
}

/// What the opener of a stream does next.
#[derive(Clone, Copy, Debug, PartialEq, Eq, Structural)]
pub enum InitiatorPhase {
    /// Write the request.
    SendRequest,
    /// Read the response.
    AwaitResponse,
    /// Write the start marker.
    SendStart,
    /// Tell the application behind the SOCKS5 frontend that its connection
    /// stands.
    ConfirmSocks,
    /// Wait for the first datagram, which starts the flow, and forward it.
    AwaitDatagram,
    /// Relay payload until both directions have ended.
    Relay,
    /// Close the sending half: there is nothing more to send.
    Finish,
    /// The flow is over.
    Closed,
}

/// What happened in a phase.
#[derive(Clone, Debug, PartialEq, Eq)]
pub enum FlowEvent {
    /// What the phase asked for is done.
    Done,
    /// The peer's response was read.
    Response(RemoteResponse),
    /// The stream gave nothing where a message was due.
    Silence,
}

/// The mathematical content of a `FlowEvent`.
pub enum FlowEventView {
    Done,
    Response(ResponseView),
    Silence,
}

impl View for FlowEvent {
    type V = FlowEventView;

    open spec fn view(&self) -> FlowEventView {
        match self {
            FlowEvent::Done => FlowEventView::Done,
            FlowEvent::Response(response) => FlowEventView::Response(response@),
            FlowEvent::Silence => FlowEventView::Silence,
        }
    }
}

/// The phase in which a flow of `kind` goes on after the peer's acceptance.
pub open spec fn after_acceptance(kind: FlowKind) -> InitiatorPhase {
    match kind {
        FlowKind::Tcp => InitiatorPhase::SendStart,
        FlowKind::Socks => InitiatorPhase::SendStart,
        FlowKind::Udp => InitiatorPhase::AwaitDatagram,
        FlowKind::Reverse => InitiatorPhase::Finish,
    }
}

/// The phase that follows the start marker in a flow of `kind`.
pub open spec fn after_start(kind: FlowKind) -> InitiatorPhase {
    match kind {
        FlowKind::Socks => InitiatorPhase::ConfirmSocks,
        _ => InitiatorPhase::Relay,
    }
}

/// The phase that follows `phase` on `event` for the opener of a stream, or
/// the error that ends the flow.
///
/// The request is written first and the response read next. A refusal ends
/// the flow. After the acceptance a TCP or SOCKS5 flow writes the start marker,
/// a SOCKS5 flow then confirms to its application, a UDP flow waits for its
/// first datagram, and a reversed request closes the sending half. Payload
/// comes last.
pub open spec fn initiator_next(kind: FlowKind, phase: InitiatorPhase, event: FlowEventView)
    -> Result<InitiatorPhase, TunnelFault> {
    match (phase, event) {
        (InitiatorPhase::SendRequest, FlowEventView::Done) => Ok(InitiatorPhase::AwaitResponse),
        (InitiatorPhase::AwaitResponse, FlowEventView::Response(ResponseView::Accepted)) => Ok(
            after_acceptance(kind),
        ),
        (
            InitiatorPhase::AwaitResponse,
            FlowEventView::Response(ResponseView::Refused(reason)),
        ) => Err(TunnelFault::RemoteFailed(reason)),
        (InitiatorPhase::AwaitResponse, FlowEventView::Silence) => Err(TunnelFault::EmptyMessage),
        (InitiatorPhase::SendStart, FlowEventView::Done) => Ok(after_start(kind)),
        (InitiatorPhase::ConfirmSocks, FlowEventView::Done) => Ok(InitiatorPhase::Relay),
        (InitiatorPhase::AwaitDatagram, FlowEventView::Done) => Ok(InitiatorPhase::Relay),
        (InitiatorPhase::Relay, FlowEventView::Done) => Ok(InitiatorPhase::Closed),
        (InitiatorPhase::Finish, FlowEventView::Done) => Ok(InitiatorPhase::Closed),
        _ => Err(TunnelFault::OutOfOrder),
    }
}

/// Decides what the opener of a stream does after `event` in `phase`: the
/// next phase, or the error with which the flow ends.
pub fn initiator_advance(kind: FlowKind, phase: InitiatorPhase, event: FlowEvent) -> (r: Result<
    InitiatorPhase,
    TunnelError,
>)
    ensures
        match initiator_next(kind, phase, event@) {
            Ok(next) => r == Ok::<InitiatorPhase, TunnelError>(next),
            Err(fault) => r is Err && r->Err_0@ == fault,
        },
{
    match phase {
        InitiatorPhase::SendRequest => match event {
            FlowEvent::Done => Ok(InitiatorPhase::AwaitResponse),
            _ => Err(TunnelError::OutOfOrder),
        },
        InitiatorPhase::AwaitResponse => match event {
            FlowEvent::Response(response) => match judge_response(response) {
                Ok(()) => Ok(
                    match kind {
                        FlowKind::Tcp => InitiatorPhase::SendStart,
                        FlowKind::Socks => InitiatorPhase::SendStart,
                        FlowKind::Udp => InitiatorPhase::AwaitDatagram,
                        FlowKind::Reverse => InitiatorPhase::Finish,
                    },
                ),
                Err(e) => Err(e),
            },
            FlowEvent::Silence => Err(TunnelError::EmptyMessage),
            FlowEvent::Done => Err(TunnelError::OutOfOrder),
        },
        InitiatorPhase::SendStart => match event {
            FlowEvent::Done => Ok(
                match kind {
                    FlowKind::Socks => InitiatorPhase::ConfirmSocks,
                    _ => InitiatorPhase::Relay,
                },
            ),
            _ => Err(TunnelError::OutOfOrder),
        },
        InitiatorPhase::ConfirmSocks => match event {
            FlowEvent::Done => Ok(InitiatorPhase::Relay),
            _ => Err(TunnelError::OutOfOrder),
        },
        InitiatorPhase::AwaitDatagram => match event {
            FlowEvent::Done => Ok(InitiatorPhase::Relay),
            _ => Err(TunnelError::OutOfOrder),
        },
        InitiatorPhase::Relay => match event {
            FlowEvent::Done => Ok(InitiatorPhase::Closed),
            _ => Err(TunnelError::OutOfOrder),
        },
        InitiatorPhase::Finish => match event {
            FlowEvent::Done => Ok(InitiatorPhase::Closed),
            _ => Err(TunnelError::OutOfOrder),
        },
        InitiatorPhase::Closed => Err(TunnelError::OutOfOrder),
    }
}

/// The kind of the flows that a listener opens.
pub open spec fn flow_kind_of(listener: Listener) -> FlowKind {
    match listener {
        Listener::Socks => FlowKind::Socks,
        Listener::Tcp => FlowKind::Tcp,
        Listener::Udp => FlowKind::Udp,
    }
}

impl Listener {
    /// The kind of the flows that this listener opens.
    pub fn flow_kind(&self) -> (r: FlowKind)
        ensures
            r == flow_kind_of(*self),
    {
        match self {
            Listener::Socks => FlowKind::Socks,
            Listener::Tcp => FlowKind::Tcp,
            Listener::Udp => FlowKind::Udp,
        }
    }
}

impl Verdict {
    /// The response that the verdict owes the peer: the refusal of reversed
    /// rules where it refuses, else the acceptance.
    pub open spec fn response_spec(self) -> ResponseView {
        match self {
            Verdict::RefuseReverse => ResponseView::Refused(reverse_refusal_text()),
            _ => ResponseView::Accepted,
        }
    }

    /// The response to write to the peer.
    pub fn response(&self) -> (r: RemoteResponse)
        ensures
            r@ == self.response_spec(),
    {
        match self {
            Verdict::RefuseReverse => RemoteResponse::RemoteFailed(
                String::from_str("Reverse remotes are not allowed"),
            ),
            _ => RemoteResponse::RemoteOk,
        }
    }
}

/// What the reader of a request does next.
#[derive(Clone, Copy, Debug, PartialEq, Eq, Structural)]
pub enum ResponderPhase {
    /// Write the response.
    SendResponse,
    /// Read the start marker.
    AwaitStart,
    /// Connect to the target.
    Dial,
    /// Relay payload until both directions have ended.
    Relay,
    /// Bind the listener of the rule and serve it.
    Listen,
    /// The stream is done with.
    Closed,
}

/// What happened in a phase of the reader of a request.
#[derive(Clone, Copy, Debug, PartialEq, Eq, Structural)]
pub enum ResponderEvent {
    /// What the phase asked for is done.
    Done,
    /// A chunk of this many bytes was read from the stream; zero where the
    /// stream gave nothing.
    Chunk(usize),
}

/// The phase in which an accepted request is served after the response.
pub open spec fn after_response(role: ServerRole) -> ResponderPhase {
    match role {
        ServerRole::Dial(Dialer::Tcp) => ResponderPhase::AwaitStart,
        ServerRole::Dial(Dialer::Udp) => ResponderPhase::Relay,
        ServerRole::Listen(_) => ResponderPhase::Listen,
    }
}

/// The phase that follows `phase` on `event` for the reader of a request
/// whose verdict is `verdict`, or the error that ends the stream.
///
/// The response is written first. A refused request ends there, and so does
/// a dropped one. A TCP target is dialed once a chunk that is not empty has
/// come in place of the start marker, and then payload is relayed; a UDP
/// target is relayed to at once; a listening role binds its listener.
pub open spec fn responder_next(verdict: Verdict, phase: ResponderPhase, event: ResponderEvent)
    -> Result<ResponderPhase, TunnelFault> {
    match (phase, event) {
        (ResponderPhase::SendResponse, ResponderEvent::Done) => match verdict {
            Verdict::Serve(role) => Ok(after_response(role)),
            Verdict::RefuseReverse => Err(TunnelFault::ReverseNotAllowed),
            Verdict::DropForward => Err(TunnelFault::NotReversed),
        },
        (ResponderPhase::AwaitStart, ResponderEvent::Chunk(len)) => if len > 0 {
            Ok(ResponderPhase::Dial)
        } else {
            Err(TunnelFault::EmptyMessage)
        },
        (ResponderPhase::Dial, ResponderEvent::Done) => Ok(ResponderPhase::Relay),
        (ResponderPhase::Relay, ResponderEvent::Done) => Ok(ResponderPhase::Closed),
        (ResponderPhase::Listen, ResponderEvent::Done) => Ok(ResponderPhase::Closed),
        _ => Err(TunnelFault::OutOfOrder),
    }
}

/// Decides what the reader of a request does after `event` in `phase`: the
/// next phase, or the error with which the stream ends.
pub fn responder_advance(verdict: Verdict, phase: ResponderPhase, event: ResponderEvent) -> (r:
    Result<ResponderPhase, TunnelError>)
    ensures
        match responder_next(verdict, phase, event) {
            Ok(next) => r == Ok::<ResponderPhase, TunnelError>(next),
            Err(fault) => r is Err && r->Err_0@ == fault,
        },
{
    match phase {
        ResponderPhase::SendResponse => match event {
            ResponderEvent::Done => match verdict {
                Verdict::Serve(ServerRole::Dial(Dialer::Tcp)) => Ok(ResponderPhase::AwaitStart),
                Verdict::Serve(ServerRole::Dial(Dialer::Udp)) => Ok(ResponderPhase::Relay),
                Verdict::Serve(ServerRole::Listen(_)) => Ok(ResponderPhase::Listen),
                Verdict::RefuseReverse => Err(TunnelError::ReverseNotAllowed),
                Verdict::DropForward => Err(TunnelError::NotReversed),
            },
            ResponderEvent::Chunk(_) => Err(TunnelError::OutOfOrder),
        },
        ResponderPhase::AwaitStart => match event {
            ResponderEvent::Chunk(len) => if RemoteStart::accepts(len) {
                Ok(ResponderPhase::Dial)
            } else {
                Err(TunnelError::EmptyMessage)
            },
            ResponderEvent::Done => Err(TunnelError::OutOfOrder),
        },
        ResponderPhase::Dial => match event {
            ResponderEvent::Done => Ok(ResponderPhase::Relay),
            ResponderEvent::Chunk(_) => Err(TunnelError::OutOfOrder),
        },
        ResponderPhase::Relay => match event {
            ResponderEvent::Done => Ok(ResponderPhase::Closed),
            ResponderEvent::Chunk(_) => Err(TunnelError::OutOfOrder),
        },
        ResponderPhase::Listen => match event {
            ResponderEvent::Done => Ok(ResponderPhase::Closed),
            ResponderEvent::Chunk(_) => Err(TunnelError::OutOfOrder),
        },
        ResponderPhase::Closed => Err(TunnelError::OutOfOrder),
    }
}

/// The phases that the opener of a stream passes through as `events` arrive
/// one per phase, from the first phase on. The flow stops at the first event
/// that is an error in its phase.
pub open spec fn initiator_run(kind: FlowKind, events: Seq<FlowEventView>) -> Seq<InitiatorPhase>
    decreases events.len(),
{
    if events.len() == 0 {
        seq![InitiatorPhase::SendRequest]
    } else {
        let before = initiator_run(kind, events.drop_last());
        if before.len() == events.len() {
            match initiator_next(kind, before.last(), events.last()) {
                Ok(next) => before.push(next),
                Err(_) => before,
            }
        } else {
            before
        }
    }
}

/// The phases that the reader of a request passes through as `events`
/// arrive one per phase, from the writing of the response on.
pub open spec fn responder_run(verdict: Verdict, events: Seq<ResponderEvent>) -> Seq<
    ResponderPhase,
>
    decreases events.len(),
{
    if events.len() == 0 {
        seq![ResponderPhase::SendResponse]
    } else {
        let before = responder_run(verdict, events.drop_last());
        if before.len() == events.len() {
            match responder_next(verdict, before.last(), events.last()) {
                Ok(next) => before.push(next),
                Err(_) => before,
            }
        } else {
            before
        }
    }
}

/// How far a phase of the opener is from the start of the flow.
pub open spec fn initiator_rank(phase: InitiatorPhase) -> nat {
    match phase {
        InitiatorPhase::SendRequest => 0,
        InitiatorPhase::AwaitResponse => 1,
        InitiatorPhase::SendStart => 2,
        InitiatorPhase::ConfirmSocks => 3,
        InitiatorPhase::AwaitDatagram => 3,
        InitiatorPhase::Finish => 3,
        InitiatorPhase::Relay => 4,
        InitiatorPhase::Closed => 5,
    }
}

/// A run starts with the request, and each of its phases follows from the one
/// before by the event that arrived there.
pub proof fn lemma_initiator_run_steps(kind: FlowKind, events: Seq<FlowEventView>)
    ensures
        1 <= initiator_run(kind, events).len() <= events.len() + 1,
        initiator_run(kind, events)[0] == InitiatorPhase::SendRequest,
        forall|i: int|
            0 <= i < initiator_run(kind, events).len() - 1 ==> initiator_next(
                kind,
                #[trigger] initiator_run(kind, events)[i],
                events[i],
            ) == Ok::<InitiatorPhase, TunnelFault>(initiator_run(kind, events)[i + 1]),
    decreases events.len(),
{
    if events.len() > 0 {
        let shorter = events.drop_last();
        lemma_initiator_run_steps(kind, shorter);
        let before = initiator_run(kind, shorter);
        let run = initiator_run(kind, events);
        assert forall|i: int| 0 <= i < run.len() - 1 implies initiator_next(
            kind,
            #[trigger] run[i],
            events[i],
        ) == Ok::<InitiatorPhase, TunnelFault>(run[i + 1]) by {
            if i < before.len() - 1 {
                assert(run[i] == before[i]);
                assert(events[i] == shorter[i]);
            }
        }
    }
}

/// Every step of the opener leads further from the start of the flow.
pub proof fn lemma_initiator_step_advances(
    kind: FlowKind,
    phase: InitiatorPhase,
    event: FlowEventView,
)
    requires
        initiator_next(kind, phase, event) is Ok,
    ensures
        initiator_rank(phase) < initiator_rank(initiator_next(kind, phase, event)->Ok_0),
{
}

/// The phases of a run come in the order of the protocol, so that none comes
/// twice.
pub proof fn lemma_initiator_run_ordered(
    kind: FlowKind,
    events: Seq<FlowEventView>,
    i: int,
    j: int,
)
    requires
        0 <= i < j < initiator_run(kind, events).len(),
    ensures
        initiator_rank(initiator_run(kind, events)[i]) < initiator_rank(
            initiator_run(kind, events)[j],
        ),
    decreases j - i,
{
    lemma_initiator_run_steps(kind, events);
    let run = initiator_run(kind, events);
    assert(initiator_next(kind, run[j - 1], events[j - 1]) == Ok::<InitiatorPhase, TunnelFault>(
        run[j],
    ));
    lemma_initiator_step_advances(kind, run[j - 1], events[j - 1]);
    if i < j - 1 {
        lemma_initiator_run_ordered(kind, events, i, j - 1);
    }
}

/// On every stream the request is what its opener writes first, and it is
/// written once.
pub proof fn lemma_request_first_and_once(kind: FlowKind, events: Seq<FlowEventView>, i: int)
    requires
        0 <= i < initiator_run(kind, events).len(),
    ensures
        initiator_run(kind, events)[i] == InitiatorPhase::SendRequest <==> i == 0,
{
    lemma_initiator_run_steps(kind, events);
    if i > 0 {
        lemma_initiator_run_ordered(kind, events, 0, i);
    }
}

/// The start marker is written at most once on a stream, and only in a flow
/// that carries a TCP connection, with or without SOCKS5.
pub proof fn lemma_start_once_and_tcp_only(
    kind: FlowKind,
    events: Seq<FlowEventView>,
    i: int,
    j: int,
)
    requires
        0 <= i < initiator_run(kind, events).len(),
        0 <= j < initiator_run(kind, events).len(),
        initiator_run(kind, events)[i] == InitiatorPhase::SendStart,
        initiator_run(kind, events)[j] == InitiatorPhase::SendStart,
    ensures
        i == j,
        kind == FlowKind::Tcp || kind == FlowKind::Socks,
{
    lemma_initiator_run_steps(kind, events);
    if i < j {
        lemma_initiator_run_ordered(kind, events, i, j);
    }
    if j < i {
        lemma_initiator_run_ordered(kind, events, j, i);
    }
    let run = initiator_run(kind, events);
    assert(i > 0);
    assert(initiator_next(kind, run[i - 1], events[i - 1]) == Ok::<InitiatorPhase, TunnelFault>(
        run[i],
    ));
}

/// Whether a phase of the opener lies beyond the response: the start marker,
/// the reply to a SOCKS5 application, the first datagram, payload, or the end
/// of a reversed request.
pub open spec fn beyond_response(phase: InitiatorPhase) -> bool {
    phase != InitiatorPhase::SendRequest && phase != InitiatorPhase::AwaitResponse
}

/// Nothing follows the request on a stream unless the peer has accepted it:
/// a phase beyond the response is reached only in a run whose second event is
/// the peer's acceptance.
pub proof fn lemma_nothing_before_acceptance(kind: FlowKind, events: Seq<FlowEventView>, i: int)
    requires
        0 <= i < initiator_run(kind, events).len(),
        beyond_response(initiator_run(kind, events)[i]),
    ensures
        i >= 2,
        initiator_run(kind, events)[1] == InitiatorPhase::AwaitResponse,
        events[1] == FlowEventView::Response(ResponseView::Accepted),
{
    lemma_initiator_run_steps(kind, events);
    let run = initiator_run(kind, events);
    assert(i > 0);
    assert(initiator_next(kind, run[0], events[0]) == Ok::<InitiatorPhase, TunnelFault>(run[1]));
    if i == 1 {
    } else {
        assert(initiator_next(kind, run[1], events[1]) == Ok::<InitiatorPhase, TunnelFault>(
            run[2],
        ));
    }
}

/// The application behind the SOCKS5 frontend is told that its connection
/// stands only after the peer has accepted the request and the start marker
/// has been written.
pub proof fn lemma_socks_reply_after_acceptance(
    kind: FlowKind,
    events: Seq<FlowEventView>,
    i: int,
)
    requires
        0 <= i < initiator_run(kind, events).len(),
        initiator_run(kind, events)[i] == InitiatorPhase::ConfirmSocks,
    ensures
        kind == FlowKind::Socks,
        i == 3,
        initiator_run(kind, events)[1] == InitiatorPhase::AwaitResponse,
        events[1] == FlowEventView::Response(ResponseView::Accepted),
        initiator_run(kind, events)[2] == InitiatorPhase::SendStart,
{
    lemma_nothing_before_acceptance(kind, events, i);
    lemma_initiator_run_steps(kind, events);
    let run = initiator_run(kind, events);
    assert(initiator_next(kind, run[1], events[1]) == Ok::<InitiatorPhase, TunnelFault>(run[2]));
    assert(initiator_next(kind, run[i - 1], events[i - 1]) == Ok::<InitiatorPhase, TunnelFault>(
        run[i],
    ));
    if i > 2 {
        assert(initiator_next(kind, run[2], events[2]) == Ok::<InitiatorPhase, TunnelFault>(
            run[3],
        ));
        if i > 3 {
            lemma_initiator_run_ordered(kind, events, 3, i);
        }
    }
}

/// A run of the reader starts with the response, and each of its phases
/// follows from the one before by the event that arrived there.
pub proof fn lemma_responder_run_steps(verdict: Verdict, events: Seq<ResponderEvent>)
    ensures
        1 <= responder_run(verdict, events).len() <= events.len() + 1,
        responder_run(verdict, events)[0] == ResponderPhase::SendResponse,
        forall|i: int|
            0 <= i < responder_run(verdict, events).len() - 1 ==> responder_next(
                verdict,
                #[trigger] responder_run(verdict, events)[i],
                events[i],
            ) == Ok::<ResponderPhase, TunnelFault>(responder_run(verdict, events)[i + 1]),
    decreases events.len(),
{
    if events.len() > 0 {
        let shorter = events.drop_last();
        lemma_responder_run_steps(verdict, shorter);
        let before = responder_run(verdict, shorter);
        let run = responder_run(verdict, events);
        assert forall|i: int| 0 <= i < run.len() - 1 implies responder_next(
            verdict,
            #[trigger] run[i],
            events[i],
        ) == Ok::<ResponderPhase, TunnelFault>(run[i + 1]) by {
            if i < before.len() - 1 {
                assert(run[i] == before[i]);
                assert(events[i] == shorter[i]);
            }
        }
    }
}

/// A stream whose request is not served ends with the response: whatever
/// happens on it, nothing is dialed, relayed or bound for it.
pub proof fn lemma_unserved_stream_ends(verdict: Verdict, events: Seq<ResponderEvent>)
    requires
        !(verdict is Serve),
    ensures
        responder_run(verdict, events) == seq![ResponderPhase::SendResponse],
{
    lemma_responder_run_steps(verdict, events);
    let run = responder_run(verdict, events);
    if run.len() > 1 {
        assert(responder_next(verdict, run[0], events[0]) == Ok::<ResponderPhase, TunnelFault>(
            run[1],
        ));
    }
    assert(run =~= seq![ResponderPhase::SendResponse]);
}

/// A target is dialed over TCP only after a chunk that is not empty has come
/// where the start marker is due.
pub proof fn lemma_dial_after_start(verdict: Verdict, events: Seq<ResponderEvent>, i: int)
    requires
        0 <= i < responder_run(verdict, events).len(),
        responder_run(verdict, events)[i] == ResponderPhase::Dial,
    ensures
        i >= 1,
        responder_run(verdict, events)[i - 1] == ResponderPhase::AwaitStart,
        events[i - 1] matches ResponderEvent::Chunk(len) && len > 0,
{
    lemma_responder_run_steps(verdict, events);
    let run = responder_run(verdict, events);
    assert(i > 0);
    assert(responder_next(verdict, run[i - 1], events[i - 1]) == Ok::<
        ResponderPhase,
        TunnelFault,
    >(run[i]));
}

/// On every stream the response is what the reader of the request writes
/// first, and it is written once.
pub proof fn lemma_response_first_and_once(verdict: Verdict, events: Seq<ResponderEvent>, i: int)
    requires
        0 <= i < responder_run(verdict, events).len(),
    ensures
        responder_run(verdict, events)[i] == ResponderPhase::SendResponse <==> i == 0,
    decreases i,
{
    lemma_responder_run_steps(verdict, events);
    let run = responder_run(verdict, events);
    if i > 0 {
        assert(responder_next(verdict, run[i - 1], events[i - 1]) == Ok::<
            ResponderPhase,
            TunnelFault,
        >(run[i]));
    }
}

} // verus!

use rusnel::client::{client_role, dynamic_verdict};
use rusnel::common::addr::{HostAddr, SocketAddress};
use rusnel::common::remote::{Protocol, RemoteRequest, RemoteResponse, RemoteStart};
use rusnel::common::socks::{
    dynamic_remote, socks_step, socks_success_reply, SocksPhase, SocksStep,
};
use rusnel::common::tcp::{Direction, RelayAction, TcpRelay};
use rusnel::common::tunnel::{
    initiator_advance, responder_advance, ClientRole, Dialer, FlowEvent, FlowKind,
    InitiatorPhase, Listener, ResponderEvent, ResponderPhase, ServerRole, TunnelError, Verdict,
};
use rusnel::common::udp::{ChunkAction, DatagramAction, UdpPump};
use rusnel::server::server_verdict;

/// What went over the stream, as the opener wrote it.
#[derive(Debug, PartialEq)]
enum Wire {
    Request(RemoteRequest),
    Start(Vec<u8>),
    HalfClose,
}

/// Carries a flow of `kind` for `rule` up to the relay of payload against a
/// server that allows reversed rules or does not, and gives what the opener
/// wrote, what it told a SOCKS5 application, the server's verdict and the
/// phases of the server, or the error of the opener.
fn open_flow(
    kind: FlowKind,
    rule: &RemoteRequest,
    judge: fn(&RemoteRequest) -> Verdict,
) -> Result<(Vec<Wire>, Vec<u8>, Verdict, Vec<ResponderPhase>), TunnelError> {
    let mut wire = Vec::new();
    let mut told = Vec::new();
    let mut server_phases = Vec::new();
    let mut verdict = None;
    let mut response = None;
    let mut server = ResponderPhase::SendResponse;
    let mut phase = InitiatorPhase::SendRequest;
    loop {
        let event = match phase {
            InitiatorPhase::SendRequest => {
                wire.push(Wire::Request(rule.clone()));
                let v = judge(rule);
                verdict = Some(v);
                server_phases.push(server);
                response = Some(v.response());
                if let Ok(next) = responder_advance(v, server, ResponderEvent::Done) {
                    server = next;
                    server_phases.push(server);
                }
                FlowEvent::Done
            }
            InitiatorPhase::AwaitResponse => FlowEvent::Response(response.take().unwrap()),
            InitiatorPhase::SendStart => {
                let marker = RemoteStart::new().bytes();
                let v = verdict.unwrap();
                server = responder_advance(v, server, ResponderEvent::Chunk(marker.len())).unwrap();
                server_phases.push(server);
                server = responder_advance(v, server, ResponderEvent::Done).unwrap();
                server_phases.push(server);
                wire.push(Wire::Start(marker));
                FlowEvent::Done
            }
            InitiatorPhase::ConfirmSocks => {
                told.extend_from_slice(&socks_success_reply());
                FlowEvent::Done
            }
            InitiatorPhase::AwaitDatagram => FlowEvent::Done,
            InitiatorPhase::Finish => {
                wire.push(Wire::HalfClose);
                FlowEvent::Done
            }
            InitiatorPhase::Relay | InitiatorPhase::Closed => {
                return Ok((wire, told, verdict.unwrap(), server_phases));
            }
        };
        phase = initiator_advance(kind, phase, event)?;
    }
}

fn forbidding(rule: &RemoteRequest) -> Verdict {
    server_verdict(rule, false)
}

fn allowing(rule: &RemoteRequest) -> Verdict {
    server_verdict(rule, true)
}

/// Relays `sent` from the application to an echoing target and back, in
/// chunks of `chunk` bytes, and gives what the application receives.
fn echo_through_relays(sent: &[u8], chunk: usize) -> Vec<u8> {
    let mut near = TcpRelay::new();
    let mut far = TcpRelay::new();
    let mut at_target: Vec<u8> = Vec::new();
    let mut back: Vec<u8> = Vec::new();
    let mut reads: Vec<&[u8]> = sent.chunks(chunk).collect();
    reads.push(&[]);
    for read in reads {
        match near.on_read(Direction::Outbound, read.len()) {
            RelayAction::Forward { len } => {
                // the far end reads the same bytes from the stream
                if let RelayAction::Forward { len } = far.on_read(Direction::Inbound, len) {
                    at_target.extend_from_slice(&read[..len]);
                }
            }
            RelayAction::Shutdown => {
                assert_eq!(far.on_read(Direction::Inbound, 0), RelayAction::Shutdown);
            }
            RelayAction::Ignore => unreachable!(),
        }
    }
    let echoed = at_target.clone();
    let mut reads: Vec<&[u8]> = echoed.chunks(chunk).collect();
    reads.push(&[]);
    for read in reads {
        match far.on_read(Direction::Outbound, read.len()) {
            RelayAction::Forward { len } => {
                if let RelayAction::Forward { len } = near.on_read(Direction::Inbound, len) {
                    back.extend_from_slice(&read[..len]);
                }
            }
            RelayAction::Shutdown => {
                assert_eq!(near.on_read(Direction::Inbound, 0), RelayAction::Shutdown);
            }
            RelayAction::Ignore => unreachable!(),
        }
    }
    assert!(near.finished());
    assert!(far.finished());
    back
}

#[test]
fn forward_tcp_echoes_ping() {
    let rule = RemoteRequest::from_str("5000:127.0.0.1:7".to_string()).unwrap();
    assert_eq!(client_role(&rule), ClientRole::Listen(Listener::Tcp));
    assert_eq!(rule.local_endpoint(), SocketAddress::new(HostAddr::V4(0, 0, 0, 0), 5000));

    let (wire, told, verdict, server) = open_flow(FlowKind::Tcp, &rule, forbidding).unwrap();
    assert_eq!(wire, vec![Wire::Request(rule.clone()), Wire::Start(b"remote_start".to_vec())]);
    assert!(told.is_empty());
    assert_eq!(verdict, Verdict::Serve(ServerRole::Dial(Dialer::Tcp)));
    assert_eq!(
        server,
        vec![
            ResponderPhase::SendResponse,
            ResponderPhase::AwaitStart,
            ResponderPhase::Dial,
            ResponderPhase::Relay,
        ]
    );
    assert_eq!(rule.target_address(), "127.0.0.1:7");
    assert_eq!(echo_through_relays(b"ping", 3), b"ping".to_vec());
}

#[test]
fn reverse_tcp_echoes_pong() {
    let rule = RemoteRequest::from_str("R:6000:127.0.0.1:7".to_string()).unwrap();
    assert_eq!(client_role(&rule), ClientRole::AskReverse);

    // the client asks the server to listen
    let (wire, _, verdict, server) = open_flow(FlowKind::Reverse, &rule, allowing).unwrap();
    assert_eq!(wire, vec![Wire::Request(rule.clone()), Wire::HalfClose]);
    assert_eq!(verdict, Verdict::Serve(ServerRole::Listen(Listener::Tcp)));
    assert_eq!(server, vec![ResponderPhase::SendResponse, ResponderPhase::Listen]);
    assert_eq!(rule.local_endpoint(), SocketAddress::new(HostAddr::V4(0, 0, 0, 0), 6000));

    // an application connects to the server, which opens a stream back
    let (wire, _, verdict, client) =
        open_flow(Listener::Tcp.flow_kind(), &rule, dynamic_verdict).unwrap();
    assert_eq!(wire, vec![Wire::Request(rule.clone()), Wire::Start(b"remote_start".to_vec())]);
    assert_eq!(verdict, Verdict::Serve(ServerRole::Dial(Dialer::Tcp)));
    assert_eq!(client.last(), Some(&ResponderPhase::Relay));
    assert_eq!(rule.target_address(), "127.0.0.1:7");
    assert_eq!(echo_through_relays(b"pong", 1024), b"pong".to_vec());
}

#[test]
fn forward_udp_carries_query_and_answer() {
    let rule = RemoteRequest::from_str("5353:127.0.0.1:53/udp".to_string()).unwrap();
    assert_eq!(rule.protocol, Protocol::Udp);
    assert_eq!(client_role(&rule), ClientRole::Listen(Listener::Udp));

    let (wire, _, verdict, server) = open_flow(FlowKind::Udp, &rule, forbidding).unwrap();
    assert_eq!(wire, vec![Wire::Request(rule.clone())]);
    assert_eq!(verdict, Verdict::Serve(ServerRole::Dial(Dialer::Udp)));
    assert_eq!(server, vec![ResponderPhase::SendResponse, ResponderPhase::Relay]);

    let resolver = rule.target_endpoint().unwrap();
    assert_eq!(resolver, SocketAddress::new(HostAddr::V4(127, 0, 0, 1), 53));
    let application = SocketAddress::new(HostAddr::V4(127, 0, 0, 1), 50123);
    let query = b"\x12\x34 query".to_vec();
    let answer = b"\x12\x34 answer".to_vec();

    let mut near = UdpPump::unbound();
    let far = UdpPump::bound_to(resolver);
    // the query: application -> client -> stream -> server -> resolver
    assert_eq!(
        near.on_datagram(application, query.len()),
        DatagramAction::Forward { len: query.len() }
    );
    assert_eq!(
        far.on_chunk(Some(query.len())),
        ChunkAction::SendTo { peer: resolver, len: query.len() }
    );
    // the answer: resolver -> server -> stream -> client -> application
    let mut far = far;
    assert_eq!(
        far.on_datagram(resolver, answer.len()),
        DatagramAction::Forward { len: answer.len() }
    );
    assert_eq!(
        near.on_chunk(Some(answer.len())),
        ChunkAction::SendTo { peer: application, len: answer.len() }
    );
}

/// The handshake of an application that asks for `example.com:80`.
fn curl_handshake(parent: &RemoteRequest) -> (Vec<u8>, RemoteRequest) {
    let inputs: Vec<Vec<u8>> = vec![
        vec![5, 2],
        vec![0, 1],
        vec![5, 1, 0, 3],
        vec![11],
        b"example.com\x00\x50".to_vec(),
    ];
    let mut phase = SocksPhase::Greeting;
    let mut replies = Vec::new();
    for input in inputs {
        assert_eq!(input.len(), phase.expected_len());
        match socks_step(phase, &input) {
            SocksStep::Continue { reply, next } => {
                replies.extend_from_slice(&reply);
                phase = next;
            }
            SocksStep::Target { host, port } => {
                return (replies, dynamic_remote(parent, host, port));
            }
            SocksStep::Reject { error, .. } => panic!("{}", error.message()),
        }
    }
    unreachable!()
}

#[test]
fn socks_reaches_example_com() {
    let rule = RemoteRequest::from_str("1080:socks".to_string()).unwrap();
    assert_eq!(client_role(&rule), ClientRole::Listen(Listener::Socks));
    assert_eq!(rule.local_endpoint().port, 1080);

    let (replies, flow_rule) = curl_handshake(&rule);
    assert_eq!(replies, vec![5, 0]);
    assert_eq!(
        flow_rule,
        RemoteRequest::new(
            HostAddr::V4(0, 0, 0, 0),
            1080,
            "example.com".to_string(),
            80,
            false,
            Protocol::Tcp
        )
    );

    let (wire, told, verdict, server) = open_flow(FlowKind::Socks, &flow_rule, forbidding).unwrap();
    assert_eq!(
        wire,
        vec![Wire::Request(flow_rule.clone()), Wire::Start(b"remote_start".to_vec())]
    );
    assert_eq!(told, vec![5, 0, 0, 1, 0, 0, 0, 0, 0, 0]);
    assert_eq!(verdict, Verdict::Serve(ServerRole::Dial(Dialer::Tcp)));
    assert_eq!(server.last(), Some(&ResponderPhase::Relay));
    assert_eq!(flow_rule.target_address(), "example.com:80");

    let request = b"GET / HTTP/1.1\r\nHost: example.com\r\n\r\n";
    assert_eq!(echo_through_relays(request, 16), request.to_vec());
}

#[test]
fn reverse_socks_dials_from_the_client() {
    let rule = RemoteRequest::from_str("R:1080:socks".to_string()).unwrap();
    assert_eq!(client_role(&rule), ClientRole::AskReverse);

    // the client asks the server to run the frontend
    let (wire, _, verdict, server) = open_flow(FlowKind::Reverse, &rule, allowing).unwrap();
    assert_eq!(wire, vec![Wire::Request(rule.clone()), Wire::HalfClose]);
    assert_eq!(verdict, Verdict::Serve(ServerRole::Listen(Listener::Socks)));
    assert_eq!(server, vec![ResponderPhase::SendResponse, ResponderPhase::Listen]);

    // an application talks to the frontend on the server
    let (replies, flow_rule) = curl_handshake(&rule);
    assert_eq!(replies, vec![5, 0]);
    assert!(flow_rule.reversed);
    assert_eq!(flow_rule.target_address(), "example.com:80");

    // the server opens a stream back, and the client dials
    let (wire, told, verdict, client) =
        open_flow(Listener::Socks.flow_kind(), &flow_rule, dynamic_verdict).unwrap();
    assert_eq!(
        wire,
        vec![Wire::Request(flow_rule.clone()), Wire::Start(b"remote_start".to_vec())]
    );
    assert_eq!(told, socks_success_reply());
    assert_eq!(verdict, Verdict::Serve(ServerRole::Dial(Dialer::Tcp)));
    assert_eq!(
        client,
        vec![
            ResponderPhase::SendResponse,
            ResponderPhase::AwaitStart,
            ResponderPhase::Dial,
            ResponderPhase::Relay,
        ]
    );
}

#[test]
fn reversed_rule_is_refused_without_allow_reverse() {
    let rule = RemoteRequest::from_str("R:6000:127.0.0.1:7".to_string()).unwrap();
    assert_eq!(client_role(&rule), ClientRole::AskReverse);
    let verdict = server_verdict(&rule, false);
    assert_eq!(verdict, Verdict::RefuseReverse);
    assert_eq!(
        verdict.response(),
        RemoteResponse::RemoteFailed("Reverse remotes are not allowed".to_string())
    );
    assert_eq!(
        responder_advance(verdict, ResponderPhase::SendResponse, ResponderEvent::Done),
        Err(TunnelError::ReverseNotAllowed)
    );

    let error = open_flow(FlowKind::Reverse, &rule, forbidding).unwrap_err();
    assert_eq!(error.message(), "Remote tunnel error: Reverse remotes are not allowed");
}

#[test]
fn socks_application_hears_nothing_of_a_refused_flow() {
    let rule = RemoteRequest::from_str("R:1080:socks".to_string()).unwrap();
    let (_, flow_rule) = curl_handshake(&rule);
    let mut told: Vec<u8> = Vec::new();
    let mut phase = InitiatorPhase::SendRequest;
    let events = vec![
        FlowEvent::Done,
        FlowEvent::Response(server_verdict(&flow_rule, false).response()),
        FlowEvent::Done,
        FlowEvent::Done,
    ];
    let mut error = None;
    for event in events {
        if phase == InitiatorPhase::ConfirmSocks {
            told.extend_from_slice(&socks_success_reply());
        }
        match initiator_advance(FlowKind::Socks, phase, event) {
            Ok(next) => phase = next,
            Err(e) => {
                error = Some(e);
                break;
            }
        }
    }
    assert!(told.is_empty());
    assert_eq!(phase, InitiatorPhase::AwaitResponse);
    assert_eq!(
        error,
        Some(TunnelError::RemoteFailed("Reverse remotes are not allowed".to_string()))
    );
}

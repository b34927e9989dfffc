use rusnel::client::{
    client_role, close_reason, dynamic_verdict, on_client_event, plan_roles, ClientEvent,
    ClientExit, CLOSE_CODE,
};
use rusnel::common::addr::{HostAddr, SocketAddress};
use rusnel::common::remote::{Protocol, RemoteRequest};
use rusnel::common::tunnel::{ClientRole, Dialer, Listener, ServerRole, Verdict};
use rusnel::logging::{set_log_level, set_verbose, LogLevel, LogSettings};
use rusnel::server::{on_accept, server_verdict, AcceptOutcome, AcceptStep, SessionCounter};
use rusnel::{ClientConfig, ServerConfig};

fn rule(host: &str, port: u16, reversed: bool, protocol: Protocol) -> RemoteRequest {
    RemoteRequest::new(HostAddr::V4(0, 0, 0, 0), 5000, host.to_string(), port, reversed, protocol)
}

#[test]
fn client_roles_follow_the_table() {
    assert_eq!(
        client_role(&rule("socks", 0, false, Protocol::Tcp)),
        ClientRole::Listen(Listener::Socks)
    );
    assert_eq!(
        client_role(&rule("127.0.0.1", 7, false, Protocol::Tcp)),
        ClientRole::Listen(Listener::Tcp)
    );
    assert_eq!(
        client_role(&rule("socks", 80, false, Protocol::Tcp)),
        ClientRole::Listen(Listener::Tcp)
    );
    assert_eq!(
        client_role(&rule("127.0.0.1", 53, false, Protocol::Udp)),
        ClientRole::Listen(Listener::Udp)
    );
    assert_eq!(
        client_role(&rule("socks", 0, false, Protocol::Udp)),
        ClientRole::Listen(Listener::Udp)
    );
    assert_eq!(client_role(&rule("127.0.0.1", 7, true, Protocol::Tcp)), ClientRole::AskReverse);
    assert_eq!(client_role(&rule("127.0.0.1", 7, true, Protocol::Udp)), ClientRole::AskReverse);
    assert_eq!(client_role(&rule("socks", 0, true, Protocol::Tcp)), ClientRole::AskReverse);
}

#[test]
fn server_roles_follow_the_table() {
    let serve = |role| Verdict::Serve(role);
    assert_eq!(
        server_verdict(&rule("127.0.0.1", 7, false, Protocol::Tcp), false),
        serve(ServerRole::Dial(Dialer::Tcp))
    );
    assert_eq!(
        server_verdict(&rule("socks", 0, false, Protocol::Tcp), true),
        serve(ServerRole::Dial(Dialer::Tcp))
    );
    assert_eq!(
        server_verdict(&rule("127.0.0.1", 53, false, Protocol::Udp), false),
        serve(ServerRole::Dial(Dialer::Udp))
    );
    assert_eq!(
        server_verdict(&rule("socks", 0, true, Protocol::Tcp), true),
        serve(ServerRole::Listen(Listener::Socks))
    );
    assert_eq!(
        server_verdict(&rule("127.0.0.1", 7, true, Protocol::Tcp), true),
        serve(ServerRole::Listen(Listener::Tcp))
    );
    assert_eq!(
        server_verdict(&rule("127.0.0.1", 53, true, Protocol::Udp), true),
        serve(ServerRole::Listen(Listener::Udp))
    );
    assert_eq!(
        server_verdict(&rule("socks", 0, true, Protocol::Udp), true),
        serve(ServerRole::Listen(Listener::Udp))
    );
}

#[test]
fn server_refuses_reversed_rules_unless_allowed() {
    for protocol in [Protocol::Tcp, Protocol::Udp] {
        assert_eq!(
            server_verdict(&rule("127.0.0.1", 7, true, protocol), false),
            Verdict::RefuseReverse
        );
        assert_eq!(
            server_verdict(&rule("socks", 0, true, protocol), false),
            Verdict::RefuseReverse
        );
    }
}

#[test]
fn streams_opened_by_the_server_must_carry_reversed_rules() {
    assert_eq!(
        dynamic_verdict(&rule("127.0.0.1", 7, true, Protocol::Tcp)),
        Verdict::Serve(ServerRole::Dial(Dialer::Tcp))
    );
    assert_eq!(
        dynamic_verdict(&rule("example.com", 80, true, Protocol::Tcp)),
        Verdict::Serve(ServerRole::Dial(Dialer::Tcp))
    );
    assert_eq!(
        dynamic_verdict(&rule("127.0.0.1", 53, true, Protocol::Udp)),
        Verdict::Serve(ServerRole::Dial(Dialer::Udp))
    );
    assert_eq!(dynamic_verdict(&rule("127.0.0.1", 7, false, Protocol::Tcp)), Verdict::DropForward);
    assert_eq!(dynamic_verdict(&rule("127.0.0.1", 7, false, Protocol::Udp)), Verdict::DropForward);
}

#[test]
fn one_role_per_rule_in_order() {
    let remotes = vec![
        rule("127.0.0.1", 7, false, Protocol::Tcp),
        rule("socks", 0, false, Protocol::Tcp),
        rule("127.0.0.1", 7, true, Protocol::Tcp),
        rule("1.1.1.1", 53, false, Protocol::Udp),
    ];
    assert_eq!(
        plan_roles(&remotes),
        vec![
            ClientRole::Listen(Listener::Tcp),
            ClientRole::Listen(Listener::Socks),
            ClientRole::AskReverse,
            ClientRole::Listen(Listener::Udp),
        ]
    );
    assert_eq!(plan_roles(&vec![]), vec![]);
}

#[test]
fn shutdown_closes_with_code_130() {
    assert_eq!(CLOSE_CODE, 130);
    assert_eq!(close_reason(), "client received ^C");
    assert_eq!(on_client_event(ClientEvent::Shutdown), ClientExit::AbortAndClose { code: 130 });
    assert_eq!(on_client_event(ClientEvent::TasksFinished), ClientExit::Leave);
}

#[test]
fn sessions_are_numbered_from_zero() {
    let mut sessions = SessionCounter::new();
    assert_eq!(sessions.open_session(), 0);
    assert_eq!(sessions.open_session(), 1);
    assert_eq!(sessions.open_session(), 2);
    let mut seen = vec![0, 1, 2];
    for _ in 0..100 {
        let id = sessions.open_session();
        assert!(id > *seen.last().unwrap());
        seen.push(id);
    }
}

#[test]
fn closed_connection_is_left_in_peace() {
    assert_eq!(on_accept(AcceptOutcome::Stream), AcceptStep::Serve);
    assert_eq!(on_accept(AcceptOutcome::ApplicationClosed), AcceptStep::Leave);
    assert_eq!(on_accept(AcceptOutcome::Failed), AcceptStep::Abandon);
}

#[test]
fn switches_decide_level_and_verbosity() {
    assert_eq!(
        set_log_level(false, false),
        LogSettings { level: LogLevel::Info, verbose: false }
    );
    assert_eq!(set_log_level(true, false), LogSettings { level: LogLevel::Info, verbose: true });
    assert_eq!(set_log_level(false, true), LogSettings { level: LogLevel::Debug, verbose: false });
    assert_eq!(set_log_level(true, true), LogSettings { level: LogLevel::Debug, verbose: true });
}

#[test]
fn set_verbose_leaves_the_level() {
    let mut settings = set_log_level(false, true);
    assert!(!settings.is_verbose());
    set_verbose(&mut settings, true);
    assert!(settings.is_verbose());
    assert_eq!(settings.level, LogLevel::Debug);
    set_verbose(&mut settings, false);
    assert!(!settings.is_verbose());
    assert_eq!(settings.level, LogLevel::Debug);
}

#[test]
fn configurations_hold_plain_values() {
    let server = ServerConfig { host: HostAddr::V4(0, 0, 0, 0), port: 8080, allow_reverse: true };
    assert_eq!(server.port, 8080);
    assert!(server.allow_reverse);
    let client = ClientConfig {
        server: SocketAddress::new(HostAddr::V4(127, 0, 0, 1), 8080),
        remotes: vec![rule("127.0.0.1", 7, false, Protocol::Tcp)],
    };
    assert_eq!(client.remotes.len(), 1);
    assert_eq!(client.server.port, 8080);
}

#[test]
fn endpoints_of_a_rule() {
    let r = RemoteRequest::new(
        HostAddr::V4(10, 1, 2, 3),
        5353,
        "127.0.0.1".to_string(),
        53,
        false,
        Protocol::Udp,
    );
    assert_eq!(r.local_endpoint(), SocketAddress::new(HostAddr::V4(10, 1, 2, 3), 5353));
    assert_eq!(r.target_address(), "127.0.0.1:53");
    assert_eq!(r.target_endpoint(), Some(SocketAddress::new(HostAddr::V4(127, 0, 0, 1), 53)));
    let named = rule("example.com", 65535, false, Protocol::Tcp);
    assert_eq!(named.target_address(), "example.com:65535");
    assert_eq!(named.target_endpoint(), None);
}

use rusnel::common::addr::HostAddr;
use rusnel::common::remote::{ParseError, Protocol, RemoteRequest};

fn parsed(text: &str) -> RemoteRequest {
    RemoteRequest::from_str(text.to_string()).unwrap()
}

fn refused(text: &str) -> ParseError {
    RemoteRequest::from_str(text.to_string()).unwrap_err()
}

const ANY: HostAddr = HostAddr::V4(0, 0, 0, 0);

#[test]
fn port_alone_names_the_default_host() {
    assert_eq!(
        parsed("1337"),
        RemoteRequest::new(ANY, 1337, "0.0.0.0".to_string(), 1337, false, Protocol::Tcp)
    );
}

#[test]
fn host_and_port_share_the_port_locally() {
    assert_eq!(
        parsed("example.com:1337"),
        RemoteRequest::new(ANY, 1337, "example.com".to_string(), 1337, false, Protocol::Tcp)
    );
}

#[test]
fn three_fields_give_the_local_port() {
    assert_eq!(
        parsed("1337:google.com:80"),
        RemoteRequest::new(ANY, 1337, "google.com".to_string(), 80, false, Protocol::Tcp)
    );
}

#[test]
fn four_fields_give_the_local_host() {
    assert_eq!(
        parsed("192.168.1.14:5000:google.com:80"),
        RemoteRequest::new(
            HostAddr::V4(192, 168, 1, 14),
            5000,
            "google.com".to_string(),
            80,
            false,
            Protocol::Tcp
        )
    );
}

#[test]
fn reverse_mark_and_protocol_are_read() {
    assert_eq!(
        parsed("R:2222:localhost:22"),
        RemoteRequest::new(ANY, 2222, "localhost".to_string(), 22, true, Protocol::Tcp)
    );
    assert_eq!(
        parsed("1.1.1.1:53/udp"),
        RemoteRequest::new(ANY, 53, "1.1.1.1".to_string(), 53, false, Protocol::Udp)
    );
    assert_eq!(
        parsed("R:10.0.0.1:6000:127.0.0.1:7/tcp"),
        RemoteRequest::new(
            HostAddr::V4(10, 0, 0, 1),
            6000,
            "127.0.0.1".to_string(),
            7,
            true,
            Protocol::Tcp
        )
    );
}

#[test]
fn socks_stands_for_host_and_port() {
    assert_eq!(
        parsed("socks"),
        RemoteRequest::new(ANY, 0, "socks".to_string(), 0, false, Protocol::Tcp)
    );
    assert_eq!(
        parsed("1080:socks"),
        RemoteRequest::new(ANY, 1080, "socks".to_string(), 0, false, Protocol::Tcp)
    );
    assert_eq!(
        parsed("R:127.0.0.1:1080:socks"),
        RemoteRequest::new(
            HostAddr::V4(127, 0, 0, 1),
            1080,
            "socks".to_string(),
            0,
            true,
            Protocol::Tcp
        )
    );
    assert!(parsed("R:socks").is_socks());
    assert!(parsed("socks:0").is_socks());
    assert!(!parsed("socks:80").is_socks());
}

#[test]
fn each_error_has_an_input() {
    assert_eq!(refused("80/TCP"), ParseError::InvalidProtocol);
    assert_eq!(refused("80/"), ParseError::InvalidProtocol);
    assert_eq!(refused("80/tcp/udp"), ParseError::InvalidProtocol);
    assert_eq!(refused(""), ParseError::InvalidRemotePort);
    assert_eq!(refused("R"), ParseError::InvalidRemotePort);
    assert_eq!(refused("host:http"), ParseError::InvalidRemotePort);
    assert_eq!(refused("65536"), ParseError::InvalidRemotePort);
    assert_eq!(refused("a:b:c:socks"), ParseError::InvalidLocalHost);
    assert_eq!(refused("1.2.3.4:1:c:socks"), ParseError::InvalidRemotePort);
    assert_eq!(refused("x:host:80"), ParseError::InvalidLocalPort);
    assert_eq!(refused("x:socks"), ParseError::InvalidLocalPort);
    assert_eq!(refused("1.2.3:80:host:80"), ParseError::InvalidLocalHost);
    assert_eq!(refused("01.2.3.4:80:host:80"), ParseError::InvalidLocalHost);
    assert_eq!(refused("256.2.3.4:80:host:80"), ParseError::InvalidLocalHost);
    assert_eq!(refused("localhost:80:socks"), ParseError::InvalidLocalHost);
    assert_eq!(refused("1:2:3:4:5"), ParseError::UnexpectedParts);
    assert_eq!(refused("socks/udp"), ParseError::SocksOverUdp);
    assert_eq!(refused("socks:0/udp"), ParseError::SocksOverUdp);
}

#[test]
fn ports_take_a_plus_and_leading_zeros() {
    assert_eq!(parsed("+80").remote_port, 80);
    assert_eq!(parsed("00000000080").remote_port, 80);
    assert_eq!(parsed("65535").remote_port, 65535);
    assert_eq!(parsed("0").remote_port, 0);
    assert_eq!(refused("+"), ParseError::InvalidRemotePort);
    assert_eq!(refused("-1"), ParseError::InvalidRemotePort);
    assert_eq!(refused("8 0"), ParseError::InvalidRemotePort);
    assert_eq!(refused("99999999999999999999999"), ParseError::InvalidRemotePort);
}

#[test]
fn written_out_string_reads_back() {
    for text in [
        "1337",
        "example.com:1337",
        "1337:google.com:80",
        "192.168.1.14:5000:google.com:80",
        "socks",
        "5000:socks",
        "R:2222:localhost:22",
        "R:socks",
        "R:5000:socks",
        "1.1.1.1:53/udp",
        ":80",
        "R:R:80",
    ] {
        let rule = parsed(text);
        let written = rule.to_remote_string().unwrap();
        assert_eq!(parsed(&written), rule);
    }
    assert_eq!(
        parsed("R:2222:localhost:22").to_remote_string().unwrap(),
        "R:0.0.0.0:2222:localhost:22/tcp"
    );
    assert_eq!(
        parsed("1.1.1.1:53/udp").to_remote_string().unwrap(),
        "0.0.0.0:53:1.1.1.1:53/udp"
    );
}

#[test]
fn rules_outside_the_notation_have_no_string() {
    let v6 = RemoteRequest::new(HostAddr::V6(1), 80, "host".to_string(), 80, false, Protocol::Tcp);
    assert_eq!(v6.to_remote_string(), None);
    let colon = RemoteRequest::new(ANY, 80, "::1".to_string(), 80, false, Protocol::Tcp);
    assert_eq!(colon.to_remote_string(), None);
    let slash = RemoteRequest::new(ANY, 80, "a/b".to_string(), 80, false, Protocol::Tcp);
    assert_eq!(slash.to_remote_string(), None);
    let socks_udp = RemoteRequest::new(ANY, 80, "socks".to_string(), 0, false, Protocol::Udp);
    assert_eq!(socks_udp.to_remote_string(), None);
}

#[test]
fn dotted_quad_is_read_and_written() {
    assert_eq!(HostAddr::parse_v4("127.0.0.1"), Some(HostAddr::V4(127, 0, 0, 1)));
    assert_eq!(HostAddr::parse_v4("255.255.255.255"), Some(HostAddr::V4(255, 255, 255, 255)));
    assert_eq!(HostAddr::parse_v4("0.0.0.0"), Some(HostAddr::V4(0, 0, 0, 0)));
    assert_eq!(HostAddr::parse_v4("1.2.3"), None);
    assert_eq!(HostAddr::parse_v4("1.2.3.4.5"), None);
    assert_eq!(HostAddr::parse_v4("1.2.3.04"), None);
    assert_eq!(HostAddr::parse_v4("1.2.3.256"), None);
    assert_eq!(HostAddr::parse_v4("1..3.4"), None);
    assert_eq!(HostAddr::parse_v4("::1"), None);
    assert_eq!(HostAddr::parse_v4(""), None);
    let written = RemoteRequest::new(
        HostAddr::V4(10, 0, 200, 9),
        1,
        "h".to_string(),
        2,
        false,
        Protocol::Tcp,
    );
    assert_eq!(written.to_remote_string().unwrap(), "10.0.200.9:1:h:2/tcp");
    assert_eq!(HostAddr::unspecified(), HostAddr::V4(0, 0, 0, 0));
}

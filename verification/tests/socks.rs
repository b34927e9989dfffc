use rusnel::common::addr::HostAddr;
use rusnel::common::remote::{Protocol, RemoteRequest};
use rusnel::common::socks::{
    dynamic_remote, socks_step, socks_success_reply, SocksError, SocksPhase, SocksStep,
};

fn go_on(reply: &[u8], next: SocksPhase) -> SocksStep {
    SocksStep::Continue { reply: reply.to_vec(), next }
}

#[test]
fn each_phase_expects_its_length() {
    assert_eq!(SocksPhase::Greeting.expected_len(), 2);
    assert_eq!(SocksPhase::Methods { count: 0 }.expected_len(), 0);
    assert_eq!(SocksPhase::Methods { count: 255 }.expected_len(), 255);
    assert_eq!(SocksPhase::Request.expected_len(), 4);
    assert_eq!(SocksPhase::Ipv4Target.expected_len(), 6);
    assert_eq!(SocksPhase::DomainLength.expected_len(), 1);
    assert_eq!(SocksPhase::DomainTarget { len: 11 }.expected_len(), 13);
    assert_eq!(SocksPhase::DomainTarget { len: 255 }.expected_len(), 257);
}

#[test]
fn greeting_must_name_version_five() {
    assert_eq!(
        socks_step(SocksPhase::Greeting, &vec![5, 1]),
        go_on(&[], SocksPhase::Methods { count: 1 })
    );
    assert_eq!(
        socks_step(SocksPhase::Greeting, &vec![4, 1]),
        SocksStep::Reject { reply: vec![], error: SocksError::UnsupportedVersion(4) }
    );
}

#[test]
fn methods_are_answered_with_no_authentication() {
    assert_eq!(
        socks_step(SocksPhase::Methods { count: 2 }, &vec![0, 2]),
        go_on(&[5, 0], SocksPhase::Request)
    );
    assert_eq!(
        socks_step(SocksPhase::Methods { count: 0 }, &vec![]),
        go_on(&[5, 0], SocksPhase::Request)
    );
}

#[test]
fn only_connect_is_served() {
    assert_eq!(
        socks_step(SocksPhase::Request, &vec![5, 1, 0, 1]),
        go_on(&[], SocksPhase::Ipv4Target)
    );
    assert_eq!(
        socks_step(SocksPhase::Request, &vec![5, 1, 0, 3]),
        go_on(&[], SocksPhase::DomainLength)
    );
    assert_eq!(
        socks_step(SocksPhase::Request, &vec![5, 2, 0, 1]),
        SocksStep::Reject { reply: vec![5, 7], error: SocksError::UnsupportedCommand(2) }
    );
    assert_eq!(
        socks_step(SocksPhase::Request, &vec![5, 3, 0, 4]),
        SocksStep::Reject { reply: vec![5, 7], error: SocksError::UnsupportedCommand(3) }
    );
}

#[test]
fn version_six_addresses_are_refused() {
    assert_eq!(
        socks_step(SocksPhase::Request, &vec![5, 1, 0, 4]),
        SocksStep::Reject { reply: vec![5, 8], error: SocksError::UnsupportedAddressType(4) }
    );
    assert_eq!(
        socks_step(SocksPhase::Request, &vec![5, 1, 0, 0]),
        SocksStep::Reject { reply: vec![5, 8], error: SocksError::UnsupportedAddressType(0) }
    );
}

#[test]
fn version_four_target_is_written_as_dotted_quad() {
    assert_eq!(
        socks_step(SocksPhase::Ipv4Target, &vec![93, 184, 216, 34, 0x01, 0xbb]),
        SocksStep::Target { host: "93.184.216.34".to_string(), port: 443 }
    );
    assert_eq!(
        socks_step(SocksPhase::Ipv4Target, &vec![0, 0, 0, 0, 0xff, 0xff]),
        SocksStep::Target { host: "0.0.0.0".to_string(), port: 65535 }
    );
}

#[test]
fn domain_target_is_read_with_its_port() {
    assert_eq!(
        socks_step(SocksPhase::DomainLength, &vec![11]),
        go_on(&[], SocksPhase::DomainTarget { len: 11 })
    );
    let mut input = b"example.com".to_vec();
    input.extend_from_slice(&[0, 80]);
    assert_eq!(
        socks_step(SocksPhase::DomainTarget { len: 11 }, &input),
        SocksStep::Target { host: "example.com".to_string(), port: 80 }
    );
    assert_eq!(
        socks_step(SocksPhase::DomainTarget { len: 0 }, &vec![0x1f, 0x90]),
        SocksStep::Target { host: String::new(), port: 8080 }
    );
}

#[test]
fn bytes_that_are_no_text_are_replaced() {
    assert_eq!(
        socks_step(SocksPhase::DomainTarget { len: 3 }, &vec![b'a', 0xff, b'b', 0, 1]),
        SocksStep::Target { host: "a\u{fffd}b".to_string(), port: 1 }
    );
    let mut input = "bücher.example".as_bytes().to_vec();
    let len = input.len() as u8;
    input.extend_from_slice(&[0, 80]);
    assert_eq!(
        socks_step(SocksPhase::DomainTarget { len }, &input),
        SocksStep::Target { host: "bücher.example".to_string(), port: 80 }
    );
}

#[test]
fn input_of_another_length_is_rejected() {
    let short = SocksStep::Reject { reply: vec![], error: SocksError::UnexpectedLength };
    assert_eq!(socks_step(SocksPhase::Greeting, &vec![5]), short);
    assert_eq!(socks_step(SocksPhase::Greeting, &vec![5, 1, 0]), short);
    assert_eq!(socks_step(SocksPhase::Methods { count: 2 }, &vec![0]), short);
    assert_eq!(socks_step(SocksPhase::Request, &vec![]), short);
    assert_eq!(socks_step(SocksPhase::Ipv4Target, &vec![1, 2, 3, 4]), short);
    assert_eq!(socks_step(SocksPhase::DomainLength, &vec![]), short);
    assert_eq!(socks_step(SocksPhase::DomainTarget { len: 3 }, &vec![b'a', b'b', b'c']), short);
}

#[test]
fn whole_handshake_for_a_domain() {
    let mut phase = SocksPhase::Greeting;
    let mut replies: Vec<u8> = Vec::new();
    let inputs: Vec<Vec<u8>> = vec![
        vec![5, 1],
        vec![0],
        vec![5, 1, 0, 3],
        vec![9],
        b"localhost\x1f\x90".to_vec(),
    ];
    let mut target = None;
    for input in inputs {
        assert_eq!(input.len(), phase.expected_len());
        match socks_step(phase, &input) {
            SocksStep::Continue { reply, next } => {
                replies.extend_from_slice(&reply);
                phase = next;
            }
            SocksStep::Target { host, port } => target = Some((host, port)),
            SocksStep::Reject { .. } => unreachable!(),
        }
    }
    assert_eq!(replies, vec![5, 0]);
    assert_eq!(target, Some(("localhost".to_string(), 8080)));
}

#[test]
fn success_reply_is_ten_bytes() {
    assert_eq!(socks_success_reply(), vec![0x05, 0x00, 0x00, 0x01, 0, 0, 0, 0, 0, 0]);
}

#[test]
fn dynamic_rule_takes_the_listening_side_of_its_parent() {
    let parent = RemoteRequest::new(
        HostAddr::V4(127, 0, 0, 1),
        1080,
        "socks".to_string(),
        0,
        true,
        Protocol::Tcp,
    );
    assert_eq!(
        dynamic_remote(&parent, "example.com".to_string(), 80),
        RemoteRequest::new(
            HostAddr::V4(127, 0, 0, 1),
            1080,
            "example.com".to_string(),
            80,
            true,
            Protocol::Tcp
        )
    );
    let udp_parent =
        RemoteRequest::new(HostAddr::V6(1), 7, "socks".to_string(), 0, false, Protocol::Udp);
    let made = dynamic_remote(&udp_parent, "10.0.0.1".to_string(), 53);
    assert_eq!(made.protocol, Protocol::Tcp);
    assert_eq!(made.local_host, HostAddr::V6(1));
    assert!(!made.reversed);
}

#[test]
fn socks_errors_read_as_the_frontend_reports_them() {
    assert_eq!(SocksError::UnsupportedVersion(4).message(), "Unsupported SOCKS version: 4");
    assert_eq!(SocksError::UnsupportedCommand(2).message(), "Unsupported SOCKS command: 2");
    assert_eq!(SocksError::UnsupportedAddressType(255).message(), "Unsupported address type: 255");
    assert_eq!(SocksError::UnsupportedAddressType(0).message(), "Unsupported address type: 0");
    assert_eq!(SocksError::UnexpectedLength.message(), "Unexpected length of SOCKS input");
}

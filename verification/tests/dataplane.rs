use rusnel::common::addr::{HostAddr, SocketAddress};
use rusnel::common::tcp::{Direction, RelayAction, TcpRelay};
use rusnel::common::udp::{ChunkAction, DatagramAction, UdpPump, DATAGRAM_BUFFER};

fn app() -> SocketAddress {
    SocketAddress::new(HostAddr::V4(127, 0, 0, 1), 40000)
}

fn stranger() -> SocketAddress {
    SocketAddress::new(HostAddr::V4(127, 0, 0, 1), 40001)
}

#[test]
fn relay_forwards_every_read_whole() {
    let mut relay = TcpRelay::new();
    assert_eq!(relay.on_read(Direction::Outbound, 4), RelayAction::Forward { len: 4 });
    assert_eq!(relay.on_read(Direction::Inbound, 1024), RelayAction::Forward { len: 1024 });
    assert_eq!(relay.on_read(Direction::Outbound, 1), RelayAction::Forward { len: 1 });
    assert!(relay.open(Direction::Outbound));
    assert!(relay.open(Direction::Inbound));
    assert!(!relay.finished());
}

#[test]
fn end_of_a_source_closes_its_direction_only() {
    let mut relay = TcpRelay::new();
    assert_eq!(relay.on_read(Direction::Outbound, 0), RelayAction::Shutdown);
    assert!(!relay.open(Direction::Outbound));
    assert!(relay.open(Direction::Inbound));
    assert!(!relay.finished());
    assert_eq!(relay.on_read(Direction::Inbound, 9), RelayAction::Forward { len: 9 });
    assert_eq!(relay.on_read(Direction::Outbound, 9), RelayAction::Ignore);
    assert_eq!(relay.on_read(Direction::Outbound, 0), RelayAction::Ignore);
    assert_eq!(relay.on_read(Direction::Inbound, 0), RelayAction::Shutdown);
    assert!(relay.finished());
}

#[test]
fn relay_delivers_what_the_sources_gave() {
    let reads: Vec<(Direction, &[u8])> = vec![
        (Direction::Outbound, b"pi"),
        (Direction::Inbound, b"po"),
        (Direction::Outbound, b"ng"),
        (Direction::Outbound, b""),
        (Direction::Inbound, b"ng"),
        (Direction::Inbound, b""),
    ];
    let mut relay = TcpRelay::new();
    let mut to_target: Vec<u8> = Vec::new();
    let mut to_application: Vec<u8> = Vec::new();
    for (direction, chunk) in reads {
        if let RelayAction::Forward { len } = relay.on_read(direction, chunk.len()) {
            match direction {
                Direction::Outbound => to_target.extend_from_slice(&chunk[..len]),
                Direction::Inbound => to_application.extend_from_slice(&chunk[..len]),
            }
        }
    }
    assert!(relay.finished());
    assert_eq!(to_target, b"ping".to_vec());
    assert_eq!(to_application, b"pong".to_vec());
}

#[test]
fn first_datagram_settles_the_peer() {
    let mut pump = UdpPump::unbound();
    assert_eq!(pump.peer(), None);
    assert_eq!(pump.on_datagram(app(), 33), DatagramAction::Forward { len: 33 });
    assert_eq!(pump.peer(), Some(app()));
    assert_eq!(pump.on_datagram(stranger(), 10), DatagramAction::Discard);
    assert_eq!(pump.peer(), Some(app()));
    assert_eq!(pump.on_datagram(app(), 0), DatagramAction::Forward { len: 0 });
    assert_eq!(
        pump.on_datagram(app(), DATAGRAM_BUFFER),
        DatagramAction::Forward { len: 1024 }
    );
}

#[test]
fn bound_pump_carries_its_target_only() {
    let mut pump = UdpPump::bound_to(app());
    assert_eq!(pump.peer(), Some(app()));
    assert_eq!(pump.on_datagram(stranger(), 5), DatagramAction::Discard);
    assert_eq!(pump.on_datagram(app(), 5), DatagramAction::Forward { len: 5 });
    let other_host = SocketAddress::new(HostAddr::V4(127, 0, 0, 2), 40000);
    assert_eq!(pump.on_datagram(other_host, 5), DatagramAction::Discard);
}

#[test]
fn datagrams_of_the_peer_come_once_and_in_order() {
    let arrivals: Vec<(SocketAddress, &[u8])> = vec![
        (app(), b"one"),
        (stranger(), b"noise"),
        (app(), b"two"),
        (app(), b"two"),
        (stranger(), b"more noise"),
        (app(), b"three"),
    ];
    let mut pump = UdpPump::unbound();
    let mut written: Vec<Vec<u8>> = Vec::new();
    for (from, payload) in arrivals {
        if let DatagramAction::Forward { len } = pump.on_datagram(from, payload.len()) {
            written.push(payload[..len].to_vec());
        }
    }
    assert_eq!(
        written,
        vec![b"one".to_vec(), b"two".to_vec(), b"two".to_vec(), b"three".to_vec()]
    );
}

#[test]
fn every_chunk_goes_to_the_peer_as_one_datagram() {
    let pump = UdpPump::bound_to(app());
    assert_eq!(pump.on_chunk(Some(512)), ChunkAction::SendTo { peer: app(), len: 512 });
    assert_eq!(pump.on_chunk(Some(0)), ChunkAction::SendTo { peer: app(), len: 0 });
    assert_eq!(pump.on_chunk(None), ChunkAction::Stop);
    let unbound = UdpPump::unbound();
    assert_eq!(unbound.on_chunk(Some(3)), ChunkAction::Drop);
    assert_eq!(unbound.on_chunk(None), ChunkAction::Stop);
}

#[test]
fn ephemeral_address_is_port_zero_everywhere() {
    assert_eq!(SocketAddress::ephemeral(), SocketAddress::new(HostAddr::V4(0, 0, 0, 0), 0));
    assert_eq!(SocketAddress::ephemeral().port, 0);
}

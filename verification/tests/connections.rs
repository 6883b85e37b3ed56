use server::network::connections::{broadcast_result, ConnectionError, ConnectionTable, Listen, SendPlan};
use server::server_id::{IpAddress, SocketAddress};

fn v4(a: u8, b: u8, c: u8, d: u8, port: u16) -> SocketAddress {
    SocketAddress { ip: IpAddress::V4(a, b, c, d), port }
}

const OPEN_AND_RESTART: SendPlan = SendPlan { open_connection: true, restart_timeout: true };
const REUSE_AND_RESTART: SendPlan = SendPlan { open_connection: false, restart_timeout: true };

#[test]
fn test_send_packet() {
    let mut table = ConnectionTable::new(true, None);
    // One connection is opened, asked once to restart its timeout, then sends.
    assert_eq!(table.send_packet(v4(127, 0, 0, 1, 1234)), Ok(OPEN_AND_RESTART));
}

#[test]
fn test_receive_packet() {
    let table = ConnectionTable::new(true, None);
    // No connection is held for the sender: none is asked to restart, and
    // the packet is passed on.
    assert!(!table.packet_received(v4(1, 1, 1, 1, 80)));
}

#[test]
fn test_timeout_restarts_when_sending_twice() {
    let mut table = ConnectionTable::new(true, None);
    let to = v4(170, 123, 200, 15, 5000);
    assert_eq!(table.send_packet(to), Ok(OPEN_AND_RESTART));
    assert_eq!(table.send_packet(to), Ok(REUSE_AND_RESTART));
}

#[test]
fn test_timeout_restarts_when_receiving() {
    let mut table = ConnectionTable::new(true, None);
    let addr = v4(34, 54, 12, 65, 1883);
    assert_eq!(table.send_packet(addr), Ok(OPEN_AND_RESTART));
    assert!(table.packet_received(addr));
}

#[test]
fn test_socket_fail() {
    let mut table = ConnectionTable::new(true, None);
    assert_eq!(table.send_packet(v4(23, 43, 12, 5, 25565)), Ok(OPEN_AND_RESTART));
    // The connection's send failed: the broadcast, or the send, answers it.
    assert_eq!(broadcast_result(&vec![Err(ConnectionError::SendFailed)]), Err(ConnectionError::SendFailed));
}

#[test]
fn test_add_stream() {
    let mut table = ConnectionTable::new(true, None);
    let addr = v4(1, 2, 6, 24, 120);
    table.add_stream(addr);
    assert!(table.packet_received(addr));
    assert_eq!(table.send_packet(addr), Ok(REUSE_AND_RESTART));
}

#[test]
fn test_socket_end() {
    let mut table = ConnectionTable::new(true, None);
    let addr = v4(170, 123, 200, 15, 5000);
    assert_eq!(table.send_packet(addr), Ok(OPEN_AND_RESTART));
    table.socket_end(addr);
    assert!(!table.packet_received(addr));
    assert_eq!(table.send_packet(addr), Ok(OPEN_AND_RESTART));
}

#[test]
fn test_bind_listener() {
    let mut table = ConnectionTable::new(true, None);
    assert_eq!(table.listen_request(Listen {}), Ok(()));
    table.listener_bound();
    assert_eq!(table.listen_request(Listen {}), Err(ConnectionError::AlreadyListening));
}

#[test]
fn handler_without_outgoing_connections_refuses_to_send() {
    let mut table = ConnectionTable::new(false, None);
    assert_eq!(table.send_packet(v4(127, 0, 0, 1, 1234)), Err(ConnectionError::ConnectionNotFound));
    // Even a connection that was accepted is not used to send.
    table.add_stream(v4(127, 0, 0, 1, 1234));
    assert_eq!(table.send_packet(v4(127, 0, 0, 1, 1234)), Err(ConnectionError::ConnectionNotFound));
}

#[test]
fn timeout_setting_is_kept_for_the_connections() {
    let table = ConnectionTable::new(true, Some(5000));
    assert_eq!(table.timeout_ms(), Some(5000));
    assert_eq!(ConnectionTable::new(true, None).timeout_ms(), None);
}

#[test]
fn listen_again_after_stop() {
    let mut table = ConnectionTable::new(true, None);
    table.listener_bound();
    table.stopped();
    assert_eq!(table.listen_request(Listen {}), Ok(()));
}

#[test]
fn broadcast_succeeds_only_when_every_send_did() {
    assert_eq!(broadcast_result(&vec![]), Ok(()));
    assert_eq!(broadcast_result(&vec![Ok(()), Ok(())]), Ok(()));
    assert_eq!(
        broadcast_result(&vec![Ok(()), Err(ConnectionError::ConnectionNotFound), Err(ConnectionError::SendFailed)]),
        Err(ConnectionError::ConnectionNotFound)
    );
}

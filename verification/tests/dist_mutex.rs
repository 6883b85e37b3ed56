use server::dist_mutex::messages::{AckMessage, OkMessage, RequestMessage, Timestamp};
use server::dist_mutex::packets::{AckPacket, MutexPacket, OkPacket, RequestPacket, ResourceId};
use server::dist_mutex::server_id::ServerId as NumberedServerId;
use server::dist_mutex::{AcquireStep, DistMutex, MutexError};
use server::server_id::{IpAddress, ServerId, SocketAddress};

fn local(last: u8) -> ServerId {
    ServerId::new(IpAddress::V4(127, 0, 0, last))
}

fn create_mutex() -> DistMutex {
    DistMutex::new(local(1), ResourceId::new(1))
}

#[test]
fn acquire_test_acquire_sends_broadcast_to_dispatcher() {
    let mut mutex = create_mutex();
    let now = Timestamp::from_millis(1000);
    let request = mutex.start_acquire(now);
    assert_eq!(request, RequestPacket::new(ResourceId::new(1), now));
}

#[test]
fn acquire_test_acquire_without_any_ack_received_returns_disconnected() {
    let mut mutex = create_mutex();
    mutex.start_acquire(Timestamp::from_millis(1000));
    assert_eq!(mutex.first_wait_expired(), AcquireStep::Disconnected);
}

#[test]
fn acquire_test_acquire_with_all_acks_received_returns_ok() {
    let mut mutex = create_mutex();
    let another_server_id = local(3);
    mutex.start_acquire(Timestamp::from_millis(1000));
    mutex.handle_ack(AckMessage { from: another_server_id });
    let connected_servers = vec![another_server_id];
    assert!(mutex.handle_ok(&OkMessage { from: another_server_id, connected_servers: connected_servers.clone() }));
}

#[test]
fn acquire_test_acquire_with_ack_but_no_ok_returns_timeout() {
    let mut mutex = create_mutex();
    mutex.start_acquire(Timestamp::from_millis(1000));
    mutex.handle_ack(AckMessage { from: local(2) });
    assert_eq!(mutex.first_wait_expired(), AcquireStep::WaitLonger);
    assert_eq!(mutex.second_wait_expired(), MutexError::Timeout);
}

#[test]
fn acquire_test_acquire_with_oks_received_from_all_servers_that_sent_ack_means_i_have_the_lock() {
    let mut mutex = create_mutex();
    let server_id_1 = local(1);
    let server_id_2 = local(2);
    let connected_servers = vec![server_id_1, server_id_2];
    let now = Timestamp::from_millis(1000);
    mutex.start_acquire(now);
    mutex.handle_ack(AckMessage { from: server_id_1 });
    assert!(!mutex.handle_ok(&OkMessage { from: server_id_1, connected_servers: connected_servers.clone() }));
    assert_eq!(mutex.first_wait_expired(), AcquireStep::Acquired { prune_older_than: now });
}

#[test]
fn acquire_test_acquire_without_timeout_does_not_send_prune_to_dispatcher() {
    let mut mutex = create_mutex();
    let another_server_id = local(3);
    mutex.start_acquire(Timestamp::from_millis(1000));
    mutex.handle_ack(AckMessage { from: another_server_id });
    let connected_servers = vec![another_server_id];
    // All oks arrive before the wait ends: no decision on a timeout, no prune.
    assert!(mutex.handle_ok(&OkMessage { from: another_server_id, connected_servers: connected_servers.clone() }));
    // A later ok does not complete the acquisition again.
    assert!(!mutex.handle_ok(&OkMessage { from: another_server_id, connected_servers: connected_servers.clone() }));
}

#[test]
fn request_when_idle_is_granted() {
    let mut mutex = create_mutex();
    let answer = mutex.handle_request(RequestMessage { from: local(2), timestamp: Timestamp::from_millis(5) });
    assert_eq!(
        answer,
        vec![
            MutexPacket::Ack(AckPacket::new(ResourceId::new(1))),
            MutexPacket::Okay(OkPacket::new(ResourceId::new(1))),
        ]
    );
    assert_eq!(mutex.release(), Vec::<ServerId>::new());
}

#[test]
fn older_request_wins_and_younger_is_queued() {
    let mut a = create_mutex();
    let mut b = DistMutex::new(local(2), ResourceId::new(1));
    let ta = Timestamp::from_millis(100);
    let tb = Timestamp::from_millis(200);
    a.start_acquire(ta);
    b.start_acquire(tb);
    // b receives a's older request and grants it.
    let to_a = b.handle_request(RequestMessage { from: local(1), timestamp: ta });
    assert_eq!(to_a.len(), 2);
    // a receives b's younger request and only acknowledges it.
    let to_b = a.handle_request(RequestMessage { from: local(2), timestamp: tb });
    assert_eq!(to_b, vec![MutexPacket::Ack(AckPacket::new(ResourceId::new(1)))]);
    // When a releases, b gets its ok.
    assert_eq!(a.release(), vec![local(2)]);
    // After the release, a grants at once.
    assert_eq!(a.handle_request(RequestMessage { from: local(3), timestamp: Timestamp::from_millis(300) }).len(), 2);
}

#[test]
fn equal_timestamps_are_queued() {
    let mut a = create_mutex();
    let t = Timestamp::from_millis(100);
    a.start_acquire(t);
    assert_eq!(a.handle_request(RequestMessage { from: local(2), timestamp: t }).len(), 1);
}

#[test]
fn release_skips_own_server_and_keeps_order() {
    let mut a = create_mutex();
    a.start_acquire(Timestamp::from_millis(1));
    a.handle_request(RequestMessage { from: local(3), timestamp: Timestamp::from_millis(5) });
    a.handle_request(RequestMessage { from: local(1), timestamp: Timestamp::from_millis(6) });
    a.handle_request(RequestMessage { from: local(2), timestamp: Timestamp::from_millis(7) });
    assert_eq!(a.release(), vec![local(3), local(2)]);
    assert_eq!(a.release(), Vec::<ServerId>::new());
}

#[test]
fn clean_state_forgets_acks() {
    let mut a = create_mutex();
    a.start_acquire(Timestamp::from_millis(1));
    a.handle_ack(AckMessage { from: local(2) });
    a.clean_state();
    assert_eq!(a.first_wait_expired(), AcquireStep::Disconnected);
}

#[test]
fn numbered_server_addresses() {
    let s = NumberedServerId::new(4);
    let addr = s.to_socket_addr();
    assert_eq!(addr, SocketAddress { ip: IpAddress::V4(127, 0, 0, 5), port: 8080 });
    assert_eq!(NumberedServerId::from_socket_addr(addr), s);
}

#[test]
fn server_numbers() {
    let s = ServerId::new(IpAddress::V4(10, 0, 0, 17));
    assert_eq!(s.to_number(), 17);
    assert_eq!(
        s.get_socket_addr(5555),
        SocketAddress { ip: IpAddress::V4(10, 0, 0, 17), port: 5555 }
    );
    let mapped = ServerId::new(IpAddress::V6(0xffff_0a00_0011));
    assert_eq!(mapped.to_number(), 17);
    let from: ServerId = SocketAddress { ip: IpAddress::V4(1, 2, 3, 4), port: 9 }.into();
    assert_eq!(from, ServerId::new(IpAddress::V4(1, 2, 3, 4)));
}

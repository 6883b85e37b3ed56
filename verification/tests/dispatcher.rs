use server::client_connections::{
    client_transaction_id, prepare_order_request, split_client_transaction_id, ClientConnections, CommitAction, OrderError,
    PreparedOrders, ServerReply,
};
use server::dist_mutex::messages::Timestamp;
use server::dist_mutex::packets::{AckPacket, MutexPacket, OkPacket, ReleasePacket, RequestPacket, ResourceId};
use server::dist_mutex::{AcquireStep, MutexError};
use server::packet_dispatcher::error::{
    add_points_result, add_points_steps, block_points_result, discount_result, ClientErrorKind,
    CommitError, LockedOutcome, PacketDispatcherError,
};
use server::dist_mutex::do_with_lock::{DoWithLock, LockStep};
use server::dist_mutex::messages::{millis_of, timestamp_from_clock};
use server::packet_dispatcher::add_points::{add_points_next, AddPointsAction, AddPointsEvent, AddPointsState};
use server::packet_dispatcher::commit::{
    CommitCompleteMessage, CommitRequestMessage, Transaction, TwoPhaseCommitMessage, TwoPhaseCommitPacket,
};
use server::packet_dispatcher::messages::{
    AddPointsMessage, BlockPointsMessage, DiscountMessage, QueuePointsMessage, TransactionId,
};
use server::packet_dispatcher::packet::{
    decode_packet, encode_mutex_for_dispatch, encode_packet, DispatchError, Packet, PacketType,
    SyncRequestPacket, SyncResponsePacket,
};
use server::packet_dispatcher::{block_points_request, MutexDispatch, PacketDispatcher, Routed};
use server::server_id::{IpAddress, ServerId, SocketAddress};

fn local(last: u8) -> ServerId {
    ServerId::new(IpAddress::V4(127, 0, 0, last))
}

fn addr(last: u8) -> SocketAddress {
    SocketAddress { ip: IpAddress::V4(127, 0, 0, last), port: 5555 }
}

fn sorted(mut v: Vec<ServerId>) -> Vec<ServerId> {
    v.sort_by_key(|s| format!("{:?}", s));
    v
}

#[test]
fn configured_servers_start_disconnected() {
    let d = PacketDispatcher::new(local(1), &vec![local(1), local(2), local(3), local(2)]);
    assert!(d.get_connected_servers().is_empty());
    assert_eq!(sorted(d.get_known_servers()), sorted(vec![local(2), local(3)]));
}

#[test]
fn packets_mark_servers_connected_and_prune_disconnects() {
    let mut d = PacketDispatcher::new(local(1), &vec![local(1), local(2), local(3)]);
    assert_eq!(d.record_packet_from(addr(2), Timestamp::from_millis(10)), local(2));
    d.record_packet_from(addr(3), Timestamp::from_millis(20));
    d.record_packet_from(addr(4), Timestamp::from_millis(30));
    assert_eq!(sorted(d.get_connected_servers()), sorted(vec![local(2), local(3), local(4)]));
    d.prune(Timestamp::from_millis(20));
    assert_eq!(sorted(d.get_connected_servers()), sorted(vec![local(3), local(4)]));
    d.prune(Timestamp::from_millis(20));
    assert_eq!(sorted(d.get_connected_servers()), sorted(vec![local(3), local(4)]));
    assert_eq!(d.get_known_servers().len(), 3);
}

#[test]
fn request_packets_are_answered_by_the_resource_mutex() {
    let mut d = PacketDispatcher::new(local(1), &vec![local(1), local(2)]);
    let id = ResourceId::new(9);
    let reply = d.handle_mutex(local(2), MutexPacket::Request(RequestPacket::new(id, Timestamp::from_millis(5))));
    assert_eq!(reply.replies, vec![MutexPacket::Ack(AckPacket::new(id)), MutexPacket::Okay(OkPacket::new(id))]);
    assert!(!reply.all_oks_received);
    let release = d.handle_mutex(local(2), MutexPacket::Release(ReleasePacket::new(id)));
    assert!(release.replies.is_empty());
}

#[test]
fn acquisition_through_the_dispatcher() {
    let mut d = PacketDispatcher::new(local(1), &vec![local(1), local(2), local(3)]);
    let id = ResourceId::new(4);
    d.record_packet_from(addr(2), Timestamp::from_millis(1));
    d.record_packet_from(addr(3), Timestamp::from_millis(2));
    let now = Timestamp::from_millis(10);
    assert_eq!(d.start_acquire(id, now), RequestPacket::new(id, now));
    // A request from another server while waiting with an older timestamp is queued.
    let reply = d.handle_mutex(local(3), MutexPacket::Request(RequestPacket::new(id, Timestamp::from_millis(11))));
    assert_eq!(reply.replies.len(), 1);
    d.handle_mutex(local(2), MutexPacket::Ack(AckPacket::new(id)));
    d.handle_mutex(local(3), MutexPacket::Ack(AckPacket::new(id)));
    assert!(!d.handle_mutex(local(2), MutexPacket::Okay(OkPacket::new(id))).all_oks_received);
    assert!(d.handle_mutex(local(3), MutexPacket::Okay(OkPacket::new(id))).all_oks_received);
    assert_eq!(d.release(id), vec![local(3)]);
}

#[test]
fn acquire_test_acquire_with_timeout_but_lock_acquired_sends_prune_to_dispatcher() {
    let mut d = PacketDispatcher::new(local(1), &vec![local(1), local(2)]);
    let id = ResourceId::new(1);
    d.record_packet_from(addr(2), Timestamp::from_millis(5));
    d.record_packet_from(addr(3), Timestamp::from_millis(50));
    let now = Timestamp::from_millis(10);
    d.start_acquire(id, now);
    d.handle_mutex(local(3), MutexPacket::Ack(AckPacket::new(id)));
    assert!(!d.handle_mutex(local(3), MutexPacket::Okay(OkPacket::new(id))).all_oks_received);
    assert_eq!(d.first_wait_expired(id), AcquireStep::Acquired { prune_older_than: now });
    // Server 2 was last seen before the request: pruned.
    assert_eq!(d.get_connected_servers(), vec![local(3)]);
}

#[test]
fn disconnected_acquisition_and_die() {
    let mut d = PacketDispatcher::new(local(1), &vec![local(1), local(2)]);
    let id = ResourceId::new(1);
    d.start_acquire(id, Timestamp::from_millis(10));
    assert_eq!(d.first_wait_expired(id), AcquireStep::Disconnected);
    d.start_acquire(id, Timestamp::from_millis(20));
    d.handle_mutex(local(2), MutexPacket::Ack(AckPacket::new(id)));
    d.die();
    assert_eq!(d.first_wait_expired(id), AcquireStep::Disconnected);
    assert_eq!(d.second_wait_expired(id), MutexError::Timeout);
}

#[test]
fn points_queue_retry() {
    let mut d = PacketDispatcher::new(local(1), &vec![]);
    let p1 = QueuePointsMessage { id: 1, amount: 10 };
    let p2 = QueuePointsMessage { id: 2, amount: 20 };
    let p3 = QueuePointsMessage { id: 3, amount: 30 };
    d.queue_points(p1);
    d.queue_points(p2);
    let attempted = d.take_points_queue();
    assert_eq!(attempted, vec![p1, p2]);
    d.queue_points(p3);
    d.requeue_failed_points(&attempted, &vec![true, false]);
    assert_eq!(d.take_points_queue(), vec![p3, p2]);
    assert_eq!(p1.to_add_points_msg().amount, 10);
}

#[test]
fn add_transactions_are_numbered() {
    let mut d = PacketDispatcher::new(local(1), &vec![]);
    assert_eq!(d.next_add_transaction(), TransactionId::Add(local(1), 0));
    assert_eq!(d.next_add_transaction(), TransactionId::Add(local(1), 1));
}

#[test]
fn outcome_mappings() {
    assert_eq!(block_points_result(LockedOutcome::Ran(Some(true))), Ok(()));
    assert_eq!(block_points_result(LockedOutcome::Ran(Some(false))), Err(PacketDispatcherError::InsufficientPoints));
    assert_eq!(block_points_result(LockedOutcome::Ran(None)), Err(PacketDispatcherError::Other));
    assert_eq!(block_points_result(LockedOutcome::Unreachable), Err(PacketDispatcherError::Other));
    assert_eq!(discount_result(LockedOutcome::Ran(true)), Ok(()));
    assert_eq!(
        discount_result(LockedOutcome::NotAcquired(MutexError::Timeout)),
        Err(PacketDispatcherError::DiscountFailed)
    );
    assert_eq!(add_points_steps(Ok(true), Ok(true)), Ok(()));
    assert_eq!(add_points_steps(Ok(false), Ok(true)), Err(PacketDispatcherError::IncreaseFailed));
    assert_eq!(add_points_steps(Ok(true), Ok(false)), Err(PacketDispatcherError::IncreaseFailed));
    assert_eq!(
        add_points_steps(Err(PacketDispatcherError::Timeout), Ok(true)),
        Err(PacketDispatcherError::Timeout)
    );
    assert_eq!(
        add_points_steps(Ok(true), Err(PacketDispatcherError::ActixMailboxFull)),
        Err(PacketDispatcherError::ActixMailboxFull)
    );
    assert_eq!(add_points_result(LockedOutcome::Unreachable), Err(PacketDispatcherError::ActixMailboxFull));
    assert_eq!(
        add_points_result(LockedOutcome::NotAcquired(MutexError::Disconnected)),
        Err(PacketDispatcherError::IncreaseFailed)
    );
    assert_eq!(add_points_result(LockedOutcome::Ran(Ok(()))), Ok(()));
    assert_eq!(PacketDispatcherError::from(CommitError::Timeout), PacketDispatcherError::Timeout);
    assert_eq!(PacketDispatcherError::from(CommitError::Disconnected), PacketDispatcherError::ServerDisconnected);
    assert_eq!(PacketDispatcherError::InsufficientPoints.client_error_kind(), ClientErrorKind::InsufficientPoints);
    assert_eq!(
        PacketDispatcherError::Timeout.client_error_kind(),
        ClientErrorKind::Other(PacketDispatcherError::Timeout)
    );
}

#[test]
fn dispatcher_packet_codec() {
    let ok = MutexPacket::Okay(OkPacket::new(ResourceId::new(3)));
    let bytes = encode_mutex_for_dispatch(&ok);
    assert_eq!(bytes, vec![0, 2, 0, 0, 0, 3]);
    assert_eq!(decode_packet(&bytes), Ok(Packet::Mutex(ok)));
    let sync = Packet::SyncRequest(SyncRequestPacket { timestamp: Timestamp::from_millis(258) });
    let sync_bytes = encode_packet(&sync);
    assert_eq!(sync_bytes.len(), 17);
    assert_eq!(decode_packet(&sync_bytes), Ok(sync));
    let response = Packet::SyncResponse(SyncResponsePacket { data: vec![1, 0x01020304] });
    let response_bytes = encode_packet(&response);
    assert_eq!(response_bytes, vec![3, 0, 0, 0, 1, 1, 2, 3, 4]);
    assert_eq!(decode_packet(&response_bytes), Ok(response));
    assert_eq!(decode_packet(&vec![]), Err(DispatchError::Empty));
    assert_eq!(decode_packet(&vec![9]), Err(DispatchError::InvalidType(9)));
    assert_eq!(decode_packet(&vec![2, 1]), Err(DispatchError::InvalidSyncRequestLength(1)));
    assert_eq!(decode_packet(&vec![3, 1]), Err(DispatchError::InvalidSyncResponseLength(1)));
    assert_eq!(decode_packet(&vec![1, 7, 7]), Err(DispatchError::InvalidCommit));
    let code: u8 = PacketType::SyncResponse.into();
    assert_eq!(code, 3);
    assert_eq!(PacketType::try_from(1u8), Ok(PacketType::Commit));
}

#[test]
fn client_orders() {
    assert_eq!(client_transaction_id(1, 2), (1u64 << 32) + 2);
    assert_eq!(split_client_transaction_id((5u64 << 32) + 9), (5, 9));
    let mut orders = PreparedOrders::new();
    let a = addr(9);
    assert_eq!(orders.commit_target(a, 7), None);
    orders.record_ready(a, 7, 456);
    assert_eq!(orders.get(a, 7), Some(456));
    assert_eq!(orders.commit_target(a, 7), Some((456, (456u64 << 32) + 7)));
    orders.record_ready(a, 7, 457);
    assert_eq!(orders.get(a, 7), Some(457));
    assert_eq!(orders.get(addr(8), 7), None);
}

#[test]
fn client_prepare_and_commit() {
    let mut clients = ClientConnections::new();
    let a = addr(20);
    assert_eq!(
        clients.commit_order(a, 1),
        CommitAction::Reply(ServerReply::Error(1, OrderError::NoPrepare))
    );
    assert_eq!(
        clients.prepare_order_finished(a, 1, 456, Ok(Err(PacketDispatcherError::InsufficientPoints))),
        ServerReply::Error(1, OrderError::DispatcherError)
    );
    assert_eq!(clients.prepare_order_finished(a, 2, 456, Err(())), ServerReply::Error(2, OrderError::Mailbox));
    assert_eq!(clients.prepare_order_finished(a, 3, 456, Ok(Ok(()))), ServerReply::Ready(3));
    assert_eq!(
        clients.commit_order(a, 3),
        CommitAction::Discount(DiscountMessage { user_id: 456, transaction_id: TransactionId::Order((456u64 << 32) + 3) })
    );
    assert_eq!(clients.prepared_orders().get(a, 1), None);
}

#[test]
fn commit_packets_are_routed() {
    let mut d = PacketDispatcher::new(local(1), &vec![local(1), local(2)]);
    d.record_packet_from(addr(2), Timestamp::from_millis(1));
    let id = TransactionId::Add(local(2), 4);
    let t = Transaction::Increase { id: 7, amount: 3 };
    assert_eq!(
        d.handle_commit(local(2), TwoPhaseCommitPacket::Prepare { id, transaction: t }),
        TwoPhaseCommitMessage::Prepare { from: local(2), id, transaction: t }
    );
    assert_eq!(
        d.handle_commit(local(2), TwoPhaseCommitPacket::VoteYes { id }),
        TwoPhaseCommitMessage::VoteYes { id, from: local(2), connected_servers: vec![local(2)] }
    );
    assert_eq!(d.handle_commit(local(2), TwoPhaseCommitPacket::Rollback { id }), TwoPhaseCommitMessage::Rollback { id });
    assert_eq!(
        d.handle_commit(local(2), TwoPhaseCommitPacket::VoteNo { id }),
        TwoPhaseCommitMessage::VoteNo { id, from: local(2) }
    );
    assert_eq!(
        d.handle_commit(local(2), TwoPhaseCommitPacket::Commit { id }),
        TwoPhaseCommitMessage::Commit { id, from: local(2) }
    );
}

#[test]
fn prepared_order_blocks_the_points_of_its_user() {
    assert_eq!(
        prepare_order_request(456, 100, 3),
        BlockPointsMessage { transaction_id: TransactionId::Order((456u64 << 32) + 3), user_id: 456, amount: 100 }
    );
    let (resource, request) = block_points_request(prepare_order_request(456, 100, 3));
    assert_eq!(resource, ResourceId::new(456));
    assert_eq!(
        request,
        CommitRequestMessage {
            id: TransactionId::Order((456u64 << 32) + 3),
            transaction: Transaction::Discount { id: 456, amount: 100 },
        }
    );
}

#[test]
fn additions_increase_points_under_the_user_mutex() {
    let mut d = PacketDispatcher::new(local(1), &vec![local(1), local(2)]);
    d.record_packet_from(addr(2), Timestamp::from_millis(1));
    let (resource, request, complete) = d.add_points_request(AddPointsMessage { id: 7, amount: 30 });
    assert_eq!(resource, ResourceId::new(7));
    assert_eq!(
        request,
        CommitRequestMessage { id: TransactionId::Add(local(1), 0), transaction: Transaction::Increase { id: 7, amount: 30 } }
    );
    assert_eq!(complete, CommitCompleteMessage { id: TransactionId::Add(local(1), 0), connected_servers: vec![local(2)] });
    let (_, second, _) = d.add_points_request(AddPointsMessage { id: 8, amount: 1 });
    assert_eq!(second.id, TransactionId::Add(local(1), 1));
}

#[test]
fn discounts_complete_with_the_connected_servers() {
    let mut d = PacketDispatcher::new(local(1), &vec![local(1), local(2), local(3)]);
    d.record_packet_from(addr(3), Timestamp::from_millis(1));
    let id = TransactionId::Order((456u64 << 32) + 3);
    let (resource, complete) = d.discount_request(DiscountMessage { user_id: 456, transaction_id: id });
    assert_eq!(resource, ResourceId::new(456));
    assert_eq!(complete, CommitCompleteMessage { id, connected_servers: vec![local(3)] });
    assert_eq!(d.commit_complete_message(id), complete);
}

#[test]
fn broadcast_goes_to_each_connected_server() {
    let mut d = PacketDispatcher::new(local(1), &vec![local(1), local(2), local(3)]);
    assert!(d.broadcast_addresses(9000).is_empty());
    d.record_packet_from(addr(2), Timestamp::from_millis(1));
    d.record_packet_from(addr(2), Timestamp::from_millis(2));
    d.record_packet_from(addr(3), Timestamp::from_millis(3));
    let mut to = d.broadcast_addresses(9000);
    to.sort_by_key(|a| format!("{:?}", a));
    assert_eq!(
        to,
        vec![
            SocketAddress { ip: IpAddress::V4(127, 0, 0, 2), port: 9000 },
            SocketAddress { ip: IpAddress::V4(127, 0, 0, 3), port: 9000 },
        ]
    );
}

#[test]
fn received_packets_are_routed_by_type() {
    let mut d = PacketDispatcher::new(local(1), &vec![local(1), local(2)]);
    let id = ResourceId::new(9);
    let routed = d.handle_packet(
        addr(2),
        Timestamp::from_millis(4),
        Packet::Mutex(MutexPacket::Request(RequestPacket::new(id, Timestamp::from_millis(5)))),
    );
    assert_eq!(
        routed,
        Routed::Mutex(MutexDispatch {
            replies: vec![MutexPacket::Ack(AckPacket::new(id)), MutexPacket::Okay(OkPacket::new(id))],
            all_oks_received: false,
        })
    );
    assert_eq!(d.get_connected_servers(), vec![local(2)]);
    let vote = TwoPhaseCommitPacket::VoteYes { id: TransactionId::Order(5) };
    match d.handle_packet(addr(3), Timestamp::from_millis(6), Packet::Commit(vote)) {
        Routed::Commit(TwoPhaseCommitMessage::VoteYes { id, from, connected_servers }) => {
            assert_eq!(id, TransactionId::Order(5));
            assert_eq!(from, local(3));
            assert_eq!(sorted(connected_servers), sorted(vec![local(2), local(3)]));
        }
        other => panic!("unexpected route {:?}", other),
    }
    let prepare = TwoPhaseCommitPacket::Prepare {
        id: TransactionId::Add(local(2), 4),
        transaction: Transaction::Increase { id: 7, amount: 3 },
    };
    assert_eq!(
        d.handle_packet(addr(2), Timestamp::from_millis(6), Packet::Commit(prepare)),
        Routed::Commit(TwoPhaseCommitMessage::Prepare {
            from: local(2),
            id: TransactionId::Add(local(2), 4),
            transaction: Transaction::Increase { id: 7, amount: 3 },
        })
    );
    assert_eq!(
        d.handle_packet(
            addr(2),
            Timestamp::from_millis(7),
            Packet::SyncRequest(SyncRequestPacket { timestamp: Timestamp::from_millis(1) })
        ),
        Routed::ForwardDatabase { to: local(2) }
    );
    assert_eq!(
        d.handle_packet(addr(2), Timestamp::from_millis(8), Packet::SyncResponse(SyncResponsePacket { data: vec![5] })),
        Routed::UpdateDatabase(SyncResponsePacket { data: vec![5] })
    );
    // Server 3 was seen at 6, server 2 last at 8: a prune at 7 keeps only 2.
    d.prune(Timestamp::from_millis(7));
    assert_eq!(d.get_connected_servers(), vec![local(2)]);
}

#[test]
fn adding_points_requests_then_completes_then_releases() {
    let (s, a) = add_points_next(AddPointsState::Acquiring, AddPointsEvent::Acquired(Ok(())));
    assert_eq!((s, a), (AddPointsState::Requesting, Some(AddPointsAction::SendCommitRequest)));
    let (s, a) = add_points_next(s, AddPointsEvent::RequestAnswered(Ok(true)));
    assert_eq!((s, a), (AddPointsState::Completing, Some(AddPointsAction::SendCommitComplete)));
    let (s, a) = add_points_next(s, AddPointsEvent::CompletionAnswered(Ok(true)));
    assert_eq!((s, a), (AddPointsState::Releasing(Ok(())), Some(AddPointsAction::Release)));
    let (s, a) = add_points_next(s, AddPointsEvent::Released(true));
    assert_eq!((s, a), (AddPointsState::Done(Ok(())), Some(AddPointsAction::Finish(Ok(())))));
    // A finished addition ignores further events.
    assert_eq!(add_points_next(s, AddPointsEvent::Released(true)), (s, None));
}

#[test]
fn adding_points_refused_or_failed() {
    let refused = add_points_next(AddPointsState::Requesting, AddPointsEvent::RequestAnswered(Ok(false)));
    assert_eq!(
        refused,
        (AddPointsState::Releasing(Err(PacketDispatcherError::IncreaseFailed)), Some(AddPointsAction::Release))
    );
    assert_eq!(
        add_points_next(AddPointsState::Acquiring, AddPointsEvent::Acquired(Err(MutexError::Timeout))),
        (
            AddPointsState::Done(Err(PacketDispatcherError::IncreaseFailed)),
            Some(AddPointsAction::Finish(Err(PacketDispatcherError::IncreaseFailed)))
        )
    );
    assert_eq!(
        add_points_next(AddPointsState::Completing, AddPointsEvent::CompletionAnswered(Err(PacketDispatcherError::Timeout))),
        (AddPointsState::Releasing(Err(PacketDispatcherError::Timeout)), Some(AddPointsAction::Release))
    );
    assert_eq!(
        add_points_next(AddPointsState::Releasing(Ok(())), AddPointsEvent::Released(false)),
        (
            AddPointsState::Done(Err(PacketDispatcherError::IncreaseFailed)),
            Some(AddPointsAction::Finish(Err(PacketDispatcherError::IncreaseFailed)))
        )
    );
    assert_eq!(
        add_points_next(AddPointsState::Requesting, AddPointsEvent::MutexUnreachable),
        (
            AddPointsState::Done(Err(PacketDispatcherError::ActixMailboxFull)),
            Some(AddPointsAction::Finish(Err(PacketDispatcherError::ActixMailboxFull)))
        )
    );
    // An event out of place changes nothing.
    assert_eq!(
        add_points_next(AddPointsState::Acquiring, AddPointsEvent::CompletionAnswered(Ok(true))),
        (AddPointsState::Acquiring, None)
    );
}

#[test]
fn action_runs_only_under_the_lock() {
    let mut run = DoWithLock::new();
    assert_eq!(run.after_acquire(Ok(())), LockStep::RunAction);
    assert_eq!(run.after_action(42u32, true), LockedOutcome::Ran(42));

    let mut refused = DoWithLock::new();
    assert_eq!(refused.after_acquire(Err(MutexError::Disconnected)), LockStep::Fail(MutexError::Disconnected));

    let mut lost = DoWithLock::new();
    assert_eq!(lost.after_acquire(Ok(())), LockStep::RunAction);
    assert_eq!(lost.after_action("done", false), LockedOutcome::NotAcquired(MutexError::Timeout));
}

#[test]
fn clock_readings_become_timestamps() {
    assert_eq!(millis_of(3, 250), 3250);
    assert_eq!(millis_of(0, 999), 999);
    assert_eq!(timestamp_from_clock(Some(1_700_000_000_123)), 1_700_000_000_123);
    assert_eq!(timestamp_from_clock(None), 0);
    assert!(Timestamp::new().is_after(&Timestamp::from_millis(1_600_000_000_000)));
}

#[test]
fn commit_packets_cross_the_wire() {
    let commit = TwoPhaseCommitPacket::Commit { id: TransactionId::Add(local(2), 4) };
    assert_eq!(commit.to_bytes(), vec![1, 1, 4, 127, 0, 0, 2, 0, 0, 0, 4]);
    let prepare = TwoPhaseCommitPacket::Prepare {
        id: TransactionId::Order(0x0102),
        transaction: Transaction::Increase { id: 7, amount: 3 },
    };
    assert_eq!(
        prepare.to_bytes(),
        vec![0, 2, 0, 0, 0, 0, 0, 0, 1, 2, 1, 0, 0, 0, 7, 0, 0, 0, 3]
    );
    let discount_id = TransactionId::Discount(
        ServerId::new(IpAddress::V6(0x2001_0db8_0000_0000_0000_0000_0000_0001)),
        SocketAddress { ip: IpAddress::V4(10, 0, 0, 9), port: 8080 },
        77,
    );
    let packets = vec![
        commit,
        prepare,
        TwoPhaseCommitPacket::Rollback { id: discount_id },
        TwoPhaseCommitPacket::VoteYes { id: discount_id },
        TwoPhaseCommitPacket::VoteNo { id: TransactionId::Order(u64::MAX) },
        TwoPhaseCommitPacket::Prepare {
            id: discount_id,
            transaction: Transaction::Discount { id: u32::MAX, amount: 100 },
        },
    ];
    for p in packets {
        let bytes = p.to_bytes();
        assert_eq!(TwoPhaseCommitPacket::from_bytes(&bytes), Some(p));
        let wire = encode_packet(&Packet::Commit(p));
        assert_eq!(wire[0], 1);
        assert_eq!(&wire[1..], &bytes[..]);
        assert_eq!(decode_packet(&wire), Ok(Packet::Commit(p)));
        // A cut packet, or one with bytes after it, is no packet.
        assert_eq!(TwoPhaseCommitPacket::from_bytes(&bytes[..bytes.len() - 1].to_vec()), None);
        let mut longer = bytes.clone();
        longer.push(0);
        assert_eq!(TwoPhaseCommitPacket::from_bytes(&longer), None);
    }
    assert_eq!(TwoPhaseCommitPacket::from_bytes(&vec![5, 2, 0, 0, 0, 0, 0, 0, 0, 1]), None);
    assert_eq!(TwoPhaseCommitPacket::from_bytes(&vec![1, 1, 5, 127, 0, 0, 2, 0, 0, 0, 4]), None);
    assert_eq!(decode_packet(&vec![1]), Err(DispatchError::InvalidCommit));
}

#[test]
fn timestamps_convert_to_and_from_bytes() {
    let t = Timestamp::from_millis(0x0102_0304_0506_0708_090a_0b0c_0d0e_0f10);
    let bytes: [u8; 16] = t.into();
    assert_eq!(bytes, [1, 2, 3, 4, 5, 6, 7, 8, 9, 10, 11, 12, 13, 14, 15, 16]);
    assert_eq!(Timestamp::from(bytes), t);
    assert_eq!(Timestamp::from([0u8; 16]), Timestamp::from_millis(0));
    let zero: [u8; 16] = Timestamp::from_millis(258).into();
    assert_eq!(&zero[14..], &[1, 2]);
}

#[test]
fn clock_timestamps_fit_a_duration() {
    let bound: u128 = u64::MAX as u128 * 1000 + 999;
    assert!(server::dist_mutex::messages::get_timestamp() <= bound);
    assert!(Timestamp::new().time <= bound);
    assert!(Timestamp::default().time > 0);
}

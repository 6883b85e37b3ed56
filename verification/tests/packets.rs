use server::dist_mutex::messages::Timestamp;
use server::dist_mutex::packets::{
    AckPacket, MutexPacket, MutexPacketType, OkPacket, PacketError, ReleasePacket, RequestPacket,
    ResourceId,
};

// Ack packets.

#[test]
fn ack_test_create_packet() {
    let id = ResourceId::new(1);
    let packet = AckPacket::new(id);
    assert_eq!(packet.id(), id);
}

#[test]
fn ack_test_serialize_packet() {
    let id = ResourceId::new(1);
    let packet = AckPacket::new(id);
    let buffer = packet.to_bytes();
    assert_eq!(buffer.len(), 5);
    assert_eq!(buffer[0], MutexPacketType::Ack.into());
    assert_eq!(buffer[1..5], [0, 0, 0, 1]);
}

#[test]
fn ack_test_deserialize_packet() {
    let buffer = vec![MutexPacketType::Ack.into(), 0, 0, 0, 1];
    let packet = AckPacket::try_from(buffer).unwrap();
    assert_eq!(packet.id(), ResourceId::new(1));
}

#[test]
fn ack_test_deserialize_invalid_packet() {
    let buffer = vec![MutexPacketType::Okay.into(), 0, 0, 0, 1];
    let packet = AckPacket::try_from(buffer);
    assert!(packet.is_err());
}

#[test]
fn ack_test_deserialize_invalid_length() {
    let buffer = vec![MutexPacketType::Ack.into(), 0, 0, 0];
    let packet = AckPacket::try_from(buffer);
    assert!(packet.is_err());
}

#[test]
fn ack_test_serialize_deserialize() {
    let id = ResourceId::new(1);
    let packet = AckPacket::new(id);
    let buffer = packet.to_bytes();
    let packet = AckPacket::try_from(buffer).unwrap();
    assert_eq!(packet.id(), id);
}

// Release packets.

#[test]
fn release_test_create_packet() {
    let resource_id = ResourceId::new(1);
    let packet = ReleasePacket::new(resource_id);
    let buffer: Vec<u8> = packet.to_bytes();
    let packet = ReleasePacket::try_from(buffer).unwrap();
    assert_eq!(packet.id(), resource_id);
}

#[test]
fn release_test_serialize_packet() {
    let resource_id = ResourceId::new(1);
    let packet = ReleasePacket::new(resource_id);
    let buffer: Vec<u8> = packet.to_bytes();
    assert_eq!(buffer.len(), 5);
    assert_eq!(buffer[0], MutexPacketType::Release.into());
    let resource_id: Vec<u8> = resource_id.to_be_bytes();
    assert_eq!(buffer[1..5], resource_id[..]);
}

#[test]
fn release_test_deserialize_packet() {
    let resource_id = ResourceId::new(1);
    let mut buffer = Vec::new();
    buffer.push(MutexPacketType::Release.into());
    let resource_id: Vec<u8> = resource_id.to_be_bytes();
    buffer.extend(resource_id.iter());
    let packet = ReleasePacket::try_from(buffer).unwrap();
    let packet_id: Vec<u8> = packet.id().to_be_bytes();
    assert_eq!(packet_id, resource_id);
}

#[test]
fn release_test_deserialize_invalid_packet() {
    let mut buffer = Vec::new();
    buffer.push(MutexPacketType::Okay.into());
    let resource_id = ResourceId::new(1);
    let resource_id: Vec<u8> = resource_id.to_be_bytes();
    buffer.extend(resource_id.iter());
    let result = ReleasePacket::try_from(buffer);
    assert!(result.is_err());
}

#[test]
fn release_test_deserialize_invalid_length() {
    let mut buffer = Vec::new();
    buffer.push(MutexPacketType::Release.into());
    let resource_id = ResourceId::new(1);
    let resource_id: Vec<u8> = resource_id.to_be_bytes();
    buffer.extend(resource_id.iter());
    buffer.push(0);
    let result = ReleasePacket::try_from(buffer);
    assert!(result.is_err());
}

#[test]
fn test_deserialize_invalid_type() {
    let mut buffer = Vec::new();
    buffer.push(MutexPacketType::Okay.into());
    let resource_id = ResourceId::new(1);
    let resource_id: Vec<u8> = resource_id.to_be_bytes();
    buffer.extend(resource_id.iter());
    let result = ReleasePacket::try_from(buffer);
    assert!(result.is_err());
}

#[test]
fn release_test_serialize_deserialize() {
    let resource_id = ResourceId::new(1);
    let packet = ReleasePacket::new(resource_id);
    let buffer: Vec<u8> = packet.to_bytes();
    let packet = ReleasePacket::try_from(buffer).unwrap();
    assert_eq!(packet.id(), resource_id);
}

// Request packets.

#[test]
fn request_test_create_packet() {
    let id = ResourceId::new(1);
    let timestamp = Timestamp::new();
    let packet = RequestPacket::new(id, timestamp);
    let buffer: Vec<u8> = packet.to_bytes();
    let packet = RequestPacket::try_from(buffer).unwrap();
    assert_eq!(packet.id(), id);
    assert_eq!(packet.timestamp(), timestamp);
}

#[test]
fn test_invalid_packet() {
    let id = ResourceId::new(1);
    let timestamp = Timestamp::new();
    let packet = RequestPacket::new(id, timestamp);
    let mut buffer: Vec<u8> = packet.to_bytes();
    buffer[0] = 1;
    let packet = RequestPacket::try_from(buffer);
    assert!(packet.is_err());
}

#[test]
fn test_invalid_length() {
    let id = ResourceId::new(1);
    let timestamp = Timestamp::new();
    let packet = RequestPacket::new(id, timestamp);
    let mut buffer: Vec<u8> = packet.to_bytes();
    buffer.pop();
    let packet = RequestPacket::try_from(buffer);
    assert!(packet.is_err());
}

#[test]
fn request_test_serialize_deserialize() {
    let id = ResourceId::new(1);
    let timestamp = Timestamp::new();
    let packet = RequestPacket::new(id, timestamp);
    let buffer: Vec<u8> = packet.to_bytes();
    let packet = RequestPacket::try_from(buffer).unwrap();
    assert_eq!(packet.id(), id);
    assert_eq!(packet.timestamp(), timestamp);
}

// Further cases.

#[test]
fn ok_packet_bytes_and_back() {
    let packet = OkPacket::new(ResourceId::new(0x01020304));
    let buffer = packet.to_bytes();
    assert_eq!(buffer, vec![2, 1, 2, 3, 4]);
    assert_eq!(OkPacket::try_from(buffer).unwrap(), packet);
}

#[test]
fn request_packet_exact_bytes() {
    let packet = RequestPacket::new(ResourceId::new(7), Timestamp::from_millis(0x0102));
    let buffer = packet.to_bytes();
    let mut expected = vec![0, 0, 0, 0, 7];
    expected.extend(vec![0u8; 14]);
    expected.extend(vec![1, 2]);
    assert_eq!(buffer, expected);
}

#[test]
fn type_codes() {
    let request: u8 = MutexPacketType::Request.into();
    let ack: u8 = MutexPacketType::Ack.into();
    let ok: u8 = MutexPacketType::Okay.into();
    let release: u8 = MutexPacketType::Release.into();
    assert_eq!((request, ack, ok, release), (0, 1, 2, 3));
    assert_eq!(MutexPacketType::try_from(2u8), Ok(MutexPacketType::Okay));
    assert_eq!(MutexPacketType::try_from(9u8), Err(PacketError::UnknownType(9)));
}

#[test]
fn id_only_errors() {
    assert_eq!(
        AckPacket::try_from(vec![1, 0, 0]),
        Err(PacketError::InvalidLength { expected_len: 5, actual_len: 3 })
    );
    assert_eq!(
        AckPacket::try_from(vec![7, 0, 0, 0, 1]),
        Err(PacketError::UnknownType(7))
    );
    assert_eq!(
        AckPacket::try_from(vec![2, 0, 0, 0, 1]),
        Err(PacketError::UnexpectedType { expected: MutexPacketType::Ack, found: MutexPacketType::Okay })
    );
}

#[test]
fn mutex_packet_round_trip_each_kind() {
    let id = ResourceId::new(42);
    let packets = vec![
        MutexPacket::Request(RequestPacket::new(id, Timestamp::from_millis(123456789))),
        MutexPacket::Okay(OkPacket::new(id)),
        MutexPacket::Ack(AckPacket::new(id)),
        MutexPacket::Release(ReleasePacket::new(id)),
    ];
    for p in packets {
        let bytes = p.to_bytes();
        assert_eq!(MutexPacket::try_from(bytes), Ok(p));
    }
}

#[test]
fn mutex_packet_errors() {
    assert_eq!(MutexPacket::try_from(Vec::new()), Err(PacketError::Empty));
    assert_eq!(MutexPacket::try_from(vec![4, 0]), Err(PacketError::UnknownType(4)));
    assert_eq!(
        MutexPacket::try_from(vec![0, 0, 0, 0, 1]),
        Err(PacketError::InvalidLength { expected_len: 21, actual_len: 5 })
    );
}

#[test]
fn timestamp_bytes_round_trip() {
    let t = Timestamp::from_millis(0x0102_0304_0506_0708_090a_0b0c_0d0e_0f10);
    let bytes = t.to_be_bytes();
    assert_eq!(bytes, (1u8..=16).collect::<Vec<u8>>());
    assert_eq!(Timestamp::from_be_bytes(&bytes), t);
}

#[test]
fn timestamp_now_is_after_epoch() {
    let before = Timestamp::from_millis(1);
    let now = Timestamp::new();
    assert!(now.is_after(&before));
}

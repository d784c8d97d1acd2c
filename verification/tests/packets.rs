use rts_handshake::error::PacketError;
use rts_handshake::network::{make_packet, FromBytes, PacketModel, ToBytes};
use rts_handshake::packet::Packet;
use rts_handshake::protocol::heart::{HeartPacket, PACKET_HEART_BEAT};
use rts_handshake::protocol::heart_beat::{HeartBeatPacket, PACKET_HEART_BEAT_RESPONSE};
use rts_handshake::protocol::player_info::{PlayerInfoPacket, PACKET_PLAYER_INFO};
use rts_handshake::protocol::preregister_connection::{
    PreregisterConnectionPacket, PACKET_PREREGISTER_CONNECTION,
};
use rts_handshake::protocol::register_connection::{
    RegisterConnectionPacket, PACKET_REGISTER_CONNECTION,
};

fn buffer(bytes: Vec<u8>) -> Packet {
    Packet { payload: bytes, offset: 0 }
}

fn declared_length(frame: &[u8]) -> usize {
    i32::from_be_bytes([frame[0], frame[1], frame[2], frame[3]]) as usize
}

fn tag(frame: &[u8]) -> i32 {
    i32::from_be_bytes([frame[4], frame[5], frame[6], frame[7]])
}

fn sample_player_info(with_password: bool) -> PlayerInfoPacket {
    PlayerInfoPacket {
        package_name: "com.corrodinggames.rts".to_string(),
        protocol_version: 5,
        game_version: 176,
        another_game_version: 176,
        nickname: "wanan".to_string(),
        is_password: with_password,
        password: if with_password { "hunter2".to_string() } else { String::new() },
        another_package_name: "com.corrodinggames.rts.java".to_string(),
        uuid_sum: "ABCDEF".to_string(),
        client_units_checksum: 678359601,
        token: "c:1".to_string(),
        color: "#FFFFFF".to_string(),
    }
}

fn sample_preregister(protocol_version: i32) -> PreregisterConnectionPacket {
    PreregisterConnectionPacket {
        package_name: "pkg".to_string(),
        protocol_version,
        game_version: 176,
        another_game_version: 2,
        relay_id: if protocol_version >= 2 { "relay".to_string() } else { String::new() },
        nickname: if protocol_version >= 3 { "nick".to_string() } else { String::new() },
        locale: "en".to_string(),
    }
}

#[test]
fn type_tags() {
    assert_eq!(PACKET_PREREGISTER_CONNECTION, 160);
    assert_eq!(rts_handshake::protocol::register_connection::PACKET_PREREGISTER_CONNECTION, 161);
    assert_eq!(PACKET_REGISTER_CONNECTION, 160);
    assert_eq!(PACKET_HEART_BEAT, 108);
    assert_eq!(PACKET_HEART_BEAT_RESPONSE, 109);
    assert_eq!(PACKET_PLAYER_INFO, 110);
}

#[test]
fn header_is_read_from_a_frame() {
    let mut p = buffer(vec![0, 0, 0, 10, 0, 0, 0, 109, 1]);
    assert_eq!(PacketModel::from_packet(&mut p), Ok(PacketModel { model: 109, total_length: 10 }));
    assert_eq!(p.offset, 8);
}

#[test]
fn short_header_is_out_of_bounds_and_stays() {
    let mut p = buffer(vec![0, 0, 0, 10, 0, 0, 0]);
    assert_eq!(PacketModel::from_packet(&mut p), Err(PacketError::OutOfBounds));
    assert_eq!(p.offset, 0);
    let mut q = buffer(vec![0, 0]);
    assert_eq!(PacketModel::from_packet(&mut q), Err(PacketError::OutOfBounds));
    assert_eq!(q.offset, 0);
}

#[test]
fn heartbeat_response_frame_is_exact() {
    let frame = HeartBeatPacket::new(42).to_bytes().unwrap();
    assert_eq!(frame, vec![0, 0, 0, 10, 0, 0, 0, 109, 0, 0, 0, 0, 0, 0, 0, 42, 1, 58]);
    assert_eq!(make_packet(&HeartBeatPacket::new(42)), frame);
}

#[test]
fn heartbeat_response_round_trip() {
    for ping in [0i64, 42, -1, i64::MAX, i64::MIN] {
        let packet = HeartBeatPacket { ping_number: ping, unknown_byte: 7, unknown_byte2: 200 };
        let frame = packet.to_bytes().unwrap();
        let mut p = buffer(frame.clone());
        assert_eq!(HeartBeatPacket::from_packet(&mut p), Ok(packet));
        assert_eq!(p.offset, frame.len());
    }
}

#[test]
fn heartbeat_ping_round_trip() {
    let packet = HeartPacket { ping_number: 0x0102_0304_0506_0708, end_byte: 9 };
    let frame = packet.to_bytes().unwrap();
    assert_eq!(frame, vec![0, 0, 0, 9, 0, 0, 0, 108, 1, 2, 3, 4, 5, 6, 7, 8, 9]);
    let mut p = buffer(frame.clone());
    assert_eq!(HeartPacket::from_packet(&mut p), Ok(packet));
    assert_eq!(p.offset, frame.len());
}

#[test]
fn heartbeat_ping_defaults() {
    assert_eq!(HeartPacket::new(5), HeartPacket { ping_number: 5, end_byte: 0 });
    assert_eq!(
        HeartBeatPacket::new(5),
        HeartBeatPacket { ping_number: 5, unknown_byte: 1, unknown_byte2: 58 }
    );
}

#[test]
fn wrong_tag_is_invalid_packet_type() {
    let frame = HeartBeatPacket::new(1).to_bytes().unwrap();
    let mut p = buffer(frame.clone());
    assert_eq!(HeartPacket::from_packet(&mut p), Err(PacketError::InvalidPacketType));
    assert_eq!(p.offset, 0);
    assert_eq!(PlayerInfoPacket::from_packet(&mut p), Err(PacketError::InvalidPacketType));
    assert_eq!(PreregisterConnectionPacket::from_packet(&mut p), Err(PacketError::InvalidPacketType));
    assert_eq!(RegisterConnectionPacket::from_packet(&mut p), Err(PacketError::InvalidPacketType));
    assert_eq!(p.offset, 0);
    let ping = HeartPacket::new(1).to_bytes().unwrap();
    let mut q = buffer(ping);
    assert_eq!(HeartBeatPacket::from_packet(&mut q), Err(PacketError::InvalidPacketType));
    assert_eq!(q.offset, 0);
}

#[test]
fn truncated_frame_is_out_of_bounds_and_rewinds() {
    let frame = sample_player_info(true).to_bytes().unwrap();
    for cut in [0, 3, 7, 8, 20, frame.len() - 1] {
        let mut p = buffer(frame[..cut].to_vec());
        assert_eq!(PlayerInfoPacket::from_packet(&mut p), Err(PacketError::OutOfBounds));
        assert_eq!(p.offset, 0);
    }
}

#[test]
fn decoding_starts_at_the_cursor() {
    let frame = HeartPacket::new(3).to_bytes().unwrap();
    let mut bytes = vec![0xEE, 0xEE];
    bytes.extend_from_slice(&frame);
    bytes.push(0xDD);
    let mut p = Packet { payload: bytes, offset: 2 };
    assert_eq!(HeartPacket::from_packet(&mut p), Ok(HeartPacket::new(3)));
    assert_eq!(p.offset, 2 + frame.len());
}

#[test]
fn declared_length_is_not_examined_by_the_buffer_decoder() {
    let mut frame = HeartPacket::new(3).to_bytes().unwrap();
    frame[3] = 77;
    let mut p = buffer(frame);
    assert_eq!(HeartPacket::from_packet(&mut p), Ok(HeartPacket::new(3)));
}

#[test]
fn player_info_round_trip_without_password() {
    let packet = sample_player_info(false);
    let frame = packet.to_bytes().unwrap();
    assert_eq!(tag(&frame), 110);
    let mut p = buffer(frame.clone());
    assert_eq!(PlayerInfoPacket::from_packet(&mut p), Ok(sample_player_info(false)));
    assert_eq!(p.offset, frame.len());
}

#[test]
fn player_info_round_trip_with_password() {
    let packet = sample_player_info(true);
    let frame = packet.to_bytes().unwrap();
    let without = sample_player_info(false).to_bytes().unwrap();
    assert_eq!(frame.len(), without.len() + 2 + "hunter2".len());
    let mut p = buffer(frame.clone());
    assert_eq!(PlayerInfoPacket::from_packet(&mut p), Ok(sample_player_info(true)));
    assert_eq!(p.offset, frame.len());
}

#[test]
fn player_info_password_without_flag_is_not_sent() {
    let mut packet = sample_player_info(false);
    packet.password = "secret".to_string();
    let frame = packet.to_bytes().unwrap();
    assert_eq!(frame, sample_player_info(false).to_bytes().unwrap());
    let mut p = buffer(frame);
    assert_eq!(PlayerInfoPacket::from_packet(&mut p).unwrap().password, "");
}

#[test]
fn player_info_invalid_text_is_utf8_error() {
    let mut frame = sample_player_info(false).to_bytes().unwrap();
    frame[10] = 0xFF;
    let mut p = buffer(frame);
    assert_eq!(PlayerInfoPacket::from_packet(&mut p), Err(PacketError::Utf8Error));
    assert_eq!(p.offset, 0);
}

#[test]
fn preregister_defaults() {
    let packet = PreregisterConnectionPacket::new();
    assert_eq!(packet.package_name, "com.corrodinggames.rts");
    assert_eq!(packet.protocol_version, 4);
    assert_eq!(packet.game_version, 176);
    assert_eq!(packet.another_game_version, 2);
    assert_eq!(packet.relay_id, "");
    assert_eq!(packet.nickname, "wanan");
    assert_eq!(packet.locale, "zh");
}

#[test]
fn preregister_scenario_round_trip() {
    let packet = PreregisterConnectionPacket::new();
    let frame = packet.to_bytes().unwrap();
    let mut expected = vec![0, 0, 0, 0, 0, 0, 0, 160, 0, 22];
    expected.extend_from_slice(b"com.corrodinggames.rts");
    expected.extend_from_slice(&[0, 0, 0, 4, 0, 0, 0, 176, 0, 0, 0, 2]);
    expected.push(0);
    expected.extend_from_slice(&[0, 5]);
    expected.extend_from_slice(b"wanan");
    expected.extend_from_slice(&[0, 2]);
    expected.extend_from_slice(b"zh");
    expected.extend_from_slice(&[0, 0]);
    expected[3] = (expected.len() - 8) as u8;
    assert_eq!(frame, expected);
    assert_eq!(&frame[frame.len() - 2..], &[0, 0]);
    let mut p = buffer(frame.clone());
    let decoded = PreregisterConnectionPacket::from_packet(&mut p).unwrap();
    assert_eq!(decoded, PreregisterConnectionPacket::new());
    assert_eq!(p.offset, frame.len());
}

#[test]
fn preregister_needs_its_reserved_bytes() {
    let frame = PreregisterConnectionPacket::new().to_bytes().unwrap();
    let mut p = buffer(frame[..frame.len() - 1].to_vec());
    assert_eq!(PreregisterConnectionPacket::from_packet(&mut p), Err(PacketError::OutOfBounds));
    assert_eq!(p.offset, 0);
    let mut other = frame.clone();
    let n = other.len();
    other[n - 1] = 9;
    other[n - 2] = 8;
    let mut q = buffer(other);
    assert_eq!(PreregisterConnectionPacket::from_packet(&mut q), Ok(PreregisterConnectionPacket::new()));
}

#[test]
fn preregister_round_trip_for_every_revision() {
    for version in [i32::MIN, -1, 0, 1, 2, 3, 4, 5, i32::MAX] {
        let frame = sample_preregister(version).to_bytes().unwrap();
        let mut p = buffer(frame.clone());
        assert_eq!(PreregisterConnectionPacket::from_packet(&mut p), Ok(sample_preregister(version)));
        assert_eq!(p.offset, frame.len());
    }
}

#[test]
fn preregister_fields_are_gated_by_revision() {
    let v1 = sample_preregister(1).to_bytes().unwrap();
    let v2 = sample_preregister(2).to_bytes().unwrap();
    let v3 = sample_preregister(3).to_bytes().unwrap();
    assert_eq!(v2.len(), v1.len() + 1 + 2 + "relay".len());
    assert_eq!(v3.len(), v2.len() + 2 + "nick".len());
    let mut hidden = sample_preregister(1);
    hidden.relay_id = "relay".to_string();
    hidden.nickname = "nick".to_string();
    assert_eq!(hidden.to_bytes().unwrap()[8..], v1[8..]);
    let mut p = buffer(hidden.to_bytes().unwrap());
    let decoded = PreregisterConnectionPacket::from_packet(&mut p).unwrap();
    assert_eq!(decoded.relay_id, "");
    assert_eq!(decoded.nickname, "");
}

#[test]
fn preregister_empty_relay_id_is_one_byte() {
    let mut with = sample_preregister(2);
    with.relay_id = String::new();
    let frame = with.to_bytes().unwrap();
    assert_eq!(frame.len(), sample_preregister(1).to_bytes().unwrap().len() + 1);
    let mut p = buffer(frame);
    assert_eq!(PreregisterConnectionPacket::from_packet(&mut p), Ok(with));
}

#[test]
fn register_defaults() {
    let packet = RegisterConnectionPacket::new();
    assert_eq!(packet.server_id, "com.corrodinggames.rts");
    assert_eq!(packet.protocol_version, 2);
    assert_eq!(packet.game_version, 176);
    assert_eq!(packet.another_game_version, 176);
    assert_eq!(packet.pkg_name, "com.corrodinggames.rts.java");
    assert_eq!(packet.network_server_id, "");
    assert_eq!(packet.server_key, 0);
    assert_eq!(packet.color, 0);
    assert_eq!(packet.zero, 0);
}

#[test]
fn register_round_trip() {
    let mut packet = RegisterConnectionPacket::new();
    packet.network_server_id = "550e8400-e29b-41d4-a716-446655440000".to_string();
    packet.server_key = -123456;
    packet.color = 0x00AB_CDEF;
    let frame = packet.to_bytes().unwrap();
    assert_eq!(tag(&frame), 161);
    let mut p = buffer(frame.clone());
    let decoded = RegisterConnectionPacket::from_packet(&mut p).unwrap();
    assert_eq!(decoded, packet);
    assert_eq!(p.offset, frame.len());
    assert_eq!(RegisterConnectionPacket::from_bytes(&frame), Ok(packet));
}

#[test]
fn register_reserved_field_is_sent_as_zero() {
    let mut packet = RegisterConnectionPacket::new();
    packet.zero = 5;
    let frame = packet.to_bytes().unwrap();
    assert_eq!(frame, RegisterConnectionPacket::new().to_bytes().unwrap());
    assert_eq!(&frame[frame.len() - 4..], &[0, 0, 0, 0]);
    let mut wire = frame.clone();
    let n = wire.len();
    wire[n - 1] = 9;
    let mut p = buffer(wire);
    assert_eq!(RegisterConnectionPacket::from_packet(&mut p).unwrap().zero, 9);
}

#[test]
fn whole_frame_decoder_checks_the_declared_length() {
    let frame = RegisterConnectionPacket::new().to_bytes().unwrap();
    let mut longer = frame.clone();
    longer.push(0);
    assert_eq!(RegisterConnectionPacket::from_bytes(&longer), Err(PacketError::OutOfBounds));
    assert_eq!(
        RegisterConnectionPacket::from_bytes(&frame[..frame.len() - 1]),
        Err(PacketError::OutOfBounds)
    );
    let mut lying = frame.clone();
    lying[3] = lying[3].wrapping_add(1);
    assert_eq!(RegisterConnectionPacket::from_bytes(&lying), Err(PacketError::OutOfBounds));
    assert_eq!(RegisterConnectionPacket::from_bytes(&[]), Err(PacketError::OutOfBounds));
    assert_eq!(RegisterConnectionPacket::from_bytes(&[0, 0, 0, 0]), Err(PacketError::OutOfBounds));
    assert_eq!(
        RegisterConnectionPacket::from_bytes(&[0xFF, 0xFF, 0xFF, 0xFC]),
        Err(PacketError::OutOfBounds)
    );
}

#[test]
fn whole_frame_decoder_checks_the_tag() {
    let frame = HeartPacket::new(1).to_bytes().unwrap();
    assert_eq!(RegisterConnectionPacket::from_bytes(&frame), Err(PacketError::InvalidPacketType));
}

#[test]
fn declared_length_covers_what_follows_the_tag() {
    let frames = vec![
        HeartPacket::new(1).to_bytes().unwrap(),
        HeartBeatPacket::new(1).to_bytes().unwrap(),
        PreregisterConnectionPacket::new().to_bytes().unwrap(),
        sample_preregister(1).to_bytes().unwrap(),
        RegisterConnectionPacket::new().to_bytes().unwrap(),
        sample_player_info(true).to_bytes().unwrap(),
        sample_player_info(false).to_bytes().unwrap(),
    ];
    for frame in frames {
        let mut p = buffer(frame.clone());
        let header = PacketModel::from_packet(&mut p).unwrap();
        assert_eq!(header.total_length as usize, declared_length(&frame));
        assert_eq!(p.read_bytes(header.total_length as usize).unwrap().len(), frame.len() - 8);
        assert_eq!(p.offset, frame.len());
        assert_eq!(p.read_byte(), Err(PacketError::OutOfBounds));
    }
}

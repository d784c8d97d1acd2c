use rts_handshake::error::PacketError;
use rts_handshake::packet::Packet;
use rts_handshake::packet_utils::{
    compute_color_for_packet, compute_key_for_packet, compute_sha256_hash,
    compute_uuid_for_packet, create_packet, format_scientific, uuid_sum_from_bytes,
    uuid_to_csharp_guid_bytes, SerKey,
};
use rts_handshake::protocol::player_info::PlayerInfoPacket;
use rts_handshake::protocol::register_connection::RegisterConnectionPacket;
use rts_handshake::text::{decimal_string, hex_upper};

const CLIENT: &str = "550e8400-e29b-41d4-a716-446655440000";
const SERVER: &str = "123e4567-e89b-12d3-a456-426614174000";

#[test]
fn scientific_notation_examples() {
    assert_eq!(format_scientific(0), "0E0");
    assert_eq!(format_scientific(-120), "-1.2E2");
    assert_eq!(format_scientific(44000), "4.4E4");
}

#[test]
fn scientific_notation_edges() {
    assert_eq!(format_scientific(7), "7E0");
    assert_eq!(format_scientific(-7), "-7E0");
    assert_eq!(format_scientific(10), "1E1");
    assert_eq!(format_scientific(1000), "1E3");
    assert_eq!(format_scientific(1234500), "1.2345E6");
    assert_eq!(format_scientific(100200), "1.002E5");
    assert_eq!(format_scientific(i64::MAX), "9.223372036854775807E18");
    assert_eq!(format_scientific(i64::MIN), "-9.223372036854775808E18");
}

#[test]
fn decimal_text() {
    assert_eq!(decimal_string(0), "0");
    assert_eq!(decimal_string(-1), "-1");
    assert_eq!(decimal_string(1234567890), "1234567890");
    assert_eq!(decimal_string(i64::MIN), "-9223372036854775808");
    assert_eq!(decimal_string(i64::MAX), "9223372036854775807");
}

#[test]
fn color_examples() {
    assert_eq!(compute_color_for_packet(0x123456), "#123456");
    assert_eq!(compute_color_for_packet(-1), "#FFFFFF");
}

#[test]
fn color_is_padded_and_masked() {
    assert_eq!(compute_color_for_packet(0), "#000000");
    assert_eq!(compute_color_for_packet(0xAB), "#0000AB");
    assert_eq!(compute_color_for_packet(0x7F12_3456), "#123456");
    assert_eq!(compute_color_for_packet(i32::MIN), "#000000");
    assert_eq!(compute_color_for_packet(-2), "#FFFFFE");
    assert_eq!(compute_color_for_packet(0x00C0_FFEE), "#C0FFEE");
}

#[test]
fn token_for_small_keys() {
    assert_eq!(
        compute_key_for_packet(0),
        "c:0m:240:01:02:03:280004:05:1600006:07:18000008:0t1:0E0d:0"
    );
    assert_eq!(
        compute_key_for_packet(1),
        "c:1m:1110:440001:12:130003:280014:750005:1600016:8500007:18000018:3800000t1:4.4E4d:5"
    );
    assert_eq!(
        compute_key_for_packet(-3),
        "c:-3m:-2370:-1320001:-32:-390003:279974:-2250005:1599976:-25500007:17999978:-11400000t1:-1.32E5d:-15"
    );
}

#[test]
fn token_arithmetic_wraps_around() {
    assert_eq!(
        compute_key_for_packet(1000000),
        "c:1000000m:870000240:10503270401:10000002:1150981123:10280004:19855559685:11600006:-4035246087:28000008:-1046056960t1:4.4E10d:5000000"
    );
    assert_eq!(
        compute_key_for_packet(i32::MAX),
        "c:2147483647m:21474835850:-440001:21474836472:-130003:-21474556494:-750005:-21473236496:-8500007:-21456836498:-3800000t1:9.4489280468E13d:2147483643"
    );
    assert_eq!(
        compute_key_for_packet(i32::MIN),
        "c:-2147483648m:-21474836240:01:-21474836482:03:-21474556484:05:-21473236486:07:-21456836488:0t1:-9.4489280512E13d:-2147483648"
    );
}

#[test]
fn frame_around_a_payload() {
    assert_eq!(create_packet(109, &[1, 2, 3]), vec![0, 0, 0, 3, 0, 0, 0, 109, 1, 2, 3]);
    assert_eq!(create_packet(0xFFFF_FFFE, &[]), vec![0, 0, 0, 0, 0xFF, 0xFF, 0xFF, 0xFE]);
    let long = vec![7u8; 0x1_0203];
    let frame = create_packet(1, &long);
    assert_eq!(&frame[..8], &[0, 1, 2, 3, 0, 0, 0, 1]);
    assert_eq!(frame.len(), 8 + long.len());
}

#[test]
fn hexadecimal_text() {
    assert_eq!(hex_upper(&[]), "");
    assert_eq!(hex_upper(&[0x00, 0x0A, 0xBE, 0xEF, 0xFF]), "000ABEEFFF");
}

#[test]
fn sha256_of_known_inputs() {
    assert_eq!(
        compute_sha256_hash(b""),
        "E3B0C44298FC1C149AFBF4C8996FB92427AE41E4649B934CA495991B7852B855"
    );
    assert_eq!(
        compute_sha256_hash(b"abc"),
        "BA7816BF8F01CFEA414140DE5DAE2223B00361A396177A9CB410FF61F20015AD"
    );
}

#[test]
fn guid_layout_reverses_the_first_three_groups() {
    let bytes: [u8; 16] = [0, 1, 2, 3, 4, 5, 6, 7, 8, 9, 10, 11, 12, 13, 14, 15];
    assert_eq!(
        uuid_to_csharp_guid_bytes(&bytes),
        [3, 2, 1, 0, 5, 4, 7, 6, 8, 9, 10, 11, 12, 13, 14, 15]
    );
}

#[test]
fn uuid_sum_of_known_pairs() {
    assert_eq!(
        compute_uuid_for_packet(CLIENT, SERVER),
        Ok("F19DA93784E176E2BE9D9A6FC8339B5D345D864CD2332C6301AA10A8D608489A".to_string())
    );
    let zero = "00000000-0000-0000-0000-000000000000";
    assert_eq!(
        compute_uuid_for_packet(zero, zero),
        Ok("6E340B9CFFB37A989CA544E6BB780A2C78901D3FB33738768511A30617AFA01D".to_string())
    );
    assert_eq!(
        compute_uuid_for_packet(
            "ffffffff-ffff-ffff-ffff-ffffffffffff",
            "00000000-0000-0000-0000-000000000001"
        ),
        Ok("65F803FF3AEDCCA4EA150FC6D5200AD8E145B17B21518DFEC61396A0CE796CBD".to_string())
    );
    assert_eq!(
        compute_uuid_for_packet(
            "00000000-0000-0000-0000-00000000007f",
            "00000000-0000-0000-0000-00000000007f"
        ),
        Ok("16164D284DE959D5FFA99BA1E8154F5DED5CFC2D74CDBC22AAB24D5E08A56315".to_string())
    );
}

#[test]
fn uuid_sum_from_bytes_agrees_with_texts() {
    let client: [u8; 16] = [
        0x55, 0x0e, 0x84, 0x00, 0xe2, 0x9b, 0x41, 0xd4, 0xa7, 0x16, 0x44, 0x66, 0x55, 0x44, 0x00,
        0x00,
    ];
    let server: [u8; 16] = [
        0x12, 0x3e, 0x45, 0x67, 0xe8, 0x9b, 0x12, 0xd3, 0xa4, 0x56, 0x42, 0x66, 0x14, 0x17, 0x40,
        0x00,
    ];
    assert_eq!(
        uuid_sum_from_bytes(&client, &server),
        "F19DA93784E176E2BE9D9A6FC8339B5D345D864CD2332C6301AA10A8D608489A"
    );
}

#[test]
fn uuid_sum_commutes() {
    let pairs = [
        (CLIENT, SERVER),
        ("ffffffff-ffff-ffff-ffff-ffffffffffff", SERVER),
        ("00000000-0000-0000-0000-000000000000", CLIENT),
    ];
    for (a, b) in pairs {
        assert_eq!(compute_uuid_for_packet(a, b), compute_uuid_for_packet(b, a));
    }
    assert_ne!(compute_uuid_for_packet(CLIENT, SERVER), compute_uuid_for_packet(CLIENT, CLIENT));
}

#[test]
fn uuid_text_forms_are_accepted_alike() {
    let hyphenated = compute_uuid_for_packet(CLIENT, SERVER);
    assert_eq!(compute_uuid_for_packet("550e8400e29b41d4a716446655440000", SERVER), hyphenated);
    assert_eq!(compute_uuid_for_packet("550E8400-E29B-41D4-A716-446655440000", SERVER), hyphenated);
}

#[test]
fn malformed_uuid_is_an_error() {
    assert_eq!(compute_uuid_for_packet("not-a-uuid", SERVER), Err(PacketError::InvalidUuid));
    assert_eq!(compute_uuid_for_packet(CLIENT, ""), Err(PacketError::InvalidUuid));
    assert_eq!(compute_uuid_for_packet("", ""), Err(PacketError::InvalidUuid));
}

fn register_frame(server_id: &str, key: i32, color: i32) -> Vec<u8> {
    let mut request = RegisterConnectionPacket::new();
    request.network_server_id = server_id.to_string();
    request.server_key = key;
    request.color = color;
    request.to_bytes().unwrap()
}

#[test]
fn key_is_taken_from_the_registration_packet() {
    let frame = register_frame(SERVER, 77, 0x0012_3456);
    let mut packet = Packet { payload: frame.clone(), offset: 0 };
    let mut key = SerKey::new();
    assert_eq!(key.keys, 0);
    assert_eq!(key.network_id, "");
    assert_eq!(key.color, 0);
    assert_eq!(SerKey::get(&mut key, &mut packet), Ok(()));
    assert_eq!(key.keys, 77);
    assert_eq!(key.network_id, SERVER);
    assert_eq!(key.color, 0x0012_3456);
    assert_eq!(packet.offset, frame.len());
}

#[test]
fn key_is_untouched_by_a_frame_that_cannot_be_decoded() {
    let frame = register_frame(SERVER, 77, 1);
    let mut packet = Packet { payload: frame[..frame.len() - 2].to_vec(), offset: 0 };
    let mut key = SerKey { keys: 5, network_id: "id".to_string(), color: 6 };
    assert_eq!(SerKey::get(&mut key, &mut packet), Err(PacketError::OutOfBounds));
    assert_eq!(key.keys, 5);
    assert_eq!(key.network_id, "id");
    assert_eq!(key.color, 6);
    assert_eq!(packet.offset, 0);
}

#[test]
fn identity_under_a_given_client_uuid() {
    let key = SerKey { keys: 1, network_id: SERVER.to_string(), color: -1 };
    let packet = PlayerInfoPacket::with_client_uuid(CLIENT, &key).unwrap();
    assert_eq!(
        packet,
        PlayerInfoPacket {
            package_name: "com.corrodinggames.rts".to_string(),
            protocol_version: 5,
            game_version: 176,
            another_game_version: 176,
            nickname: "wanan".to_string(),
            is_password: false,
            password: String::new(),
            another_package_name: "com.corrodinggames.rts.java".to_string(),
            uuid_sum: "F19DA93784E176E2BE9D9A6FC8339B5D345D864CD2332C6301AA10A8D608489A"
                .to_string(),
            client_units_checksum: 678359601,
            token: compute_key_for_packet(1),
            color: "#FFFFFF".to_string(),
        }
    );
}

#[test]
fn identity_needs_two_uuids() {
    let key = SerKey { keys: 1, network_id: "nothing".to_string(), color: 0 };
    assert_eq!(PlayerInfoPacket::with_client_uuid(CLIENT, &key), Err(PacketError::InvalidUuid));
    let good = SerKey { keys: 1, network_id: SERVER.to_string(), color: 0 };
    assert_eq!(PlayerInfoPacket::with_client_uuid("nothing", &good), Err(PacketError::InvalidUuid));
}

#[test]
fn identity_under_a_drawn_uuid() {
    let frame = register_frame(SERVER, 9, 0x00FF_0000);
    let mut packet = Packet { payload: frame.clone(), offset: 0 };
    let first = PlayerInfoPacket::new(&mut packet).unwrap();
    assert_eq!(packet.offset, frame.len());
    assert_eq!(first.token, compute_key_for_packet(9));
    assert_eq!(first.color, "#FF0000");
    assert_eq!(first.protocol_version, 5);
    assert_eq!(first.uuid_sum.len(), 64);
    assert!(first.uuid_sum.chars().all(|c| c.is_ascii_digit() || ('A'..='F').contains(&c)));
    packet.offset = 0;
    let second = PlayerInfoPacket::new(&mut packet).unwrap();
    assert_ne!(first.uuid_sum, second.uuid_sum);
}

#[test]
fn identity_from_a_bad_request() {
    let mut packet = Packet { payload: vec![0, 0, 0, 1, 0, 0, 0, 108], offset: 0 };
    assert_eq!(PlayerInfoPacket::new(&mut packet), Err(PacketError::InvalidPacketType));
    assert_eq!(packet.offset, 0);
    let frame = register_frame("no uuid", 9, 0);
    let mut other = Packet { payload: frame.clone(), offset: 0 };
    assert_eq!(PlayerInfoPacket::new(&mut other), Err(PacketError::InvalidUuid));
    assert_eq!(other.offset, frame.len());
}

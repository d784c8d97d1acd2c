use rts_handshake::error::PacketError;
use rts_handshake::packet::Packet;

fn buffer(bytes: &[u8]) -> Packet {
    Packet { payload: bytes.to_vec(), offset: 0 }
}

#[test]
fn new_buffer_is_empty() {
    let p = Packet::new();
    assert!(p.payload.is_empty());
    assert_eq!(p.offset, 0);
}

#[test]
fn integers_are_written_big_endian() {
    let mut p = Packet::new();
    assert_eq!(p.write_i16(0x0102), Ok(()));
    assert_eq!(p.write_i32(0x0304_0506), Ok(()));
    assert_eq!(p.write_i64(0x0708_090A_0B0C_0D0E), Ok(()));
    assert_eq!(p.payload, vec![1, 2, 3, 4, 5, 6, 7, 8, 9, 10, 11, 12, 13, 14]);
    assert_eq!(p.offset, 0);
}

#[test]
fn negative_integers_are_written_in_twos_complement() {
    let mut p = Packet::new();
    p.write_i16(-2).unwrap();
    p.write_i32(-1).unwrap();
    p.write_i64(i64::MIN).unwrap();
    p.write_i32(i32::MIN).unwrap();
    assert_eq!(
        p.payload,
        vec![0xFF, 0xFE, 0xFF, 0xFF, 0xFF, 0xFF, 0x80, 0, 0, 0, 0, 0, 0, 0, 0x80, 0, 0, 0]
    );
}

#[test]
fn written_integers_match_std() {
    for v in [0i64, 1, -1, 255, 256, -256, 0x1234_5678_9ABC_DEF0, i64::MAX, i64::MIN] {
        let mut p = Packet::new();
        p.write_i64(v).unwrap();
        p.write_i32(v as i32).unwrap();
        p.write_i16(v as i16).unwrap();
        let mut expected = v.to_be_bytes().to_vec();
        expected.extend_from_slice(&(v as i32).to_be_bytes());
        expected.extend_from_slice(&(v as i16).to_be_bytes());
        assert_eq!(p.payload, expected);
        assert_eq!(p.read_i64(), Ok(v));
        assert_eq!(p.read_i32(), Ok(v as i32));
        assert_eq!(p.read_i16(), Ok(v as i16));
        assert_eq!(p.offset, 14);
    }
}

#[test]
fn bytes_and_booleans_are_written_as_they_are() {
    let mut p = Packet::new();
    p.write_byte(0xAB).unwrap();
    p.write_bool(true).unwrap();
    p.write_bool(false).unwrap();
    p.write_bytes(&[9, 8, 7]).unwrap();
    assert_eq!(p.payload, vec![0xAB, 1, 0, 9, 8, 7]);
}

#[test]
fn string_is_written_behind_its_length() {
    let mut p = Packet::new();
    p.write_string("zh").unwrap();
    assert_eq!(p.payload, vec![0, 2, b'z', b'h']);
    let mut q = Packet::new();
    q.write_string("").unwrap();
    assert_eq!(q.payload, vec![0, 0]);
}

#[test]
fn string_length_counts_bytes_not_characters() {
    let mut p = Packet::new();
    p.write_string("é").unwrap();
    assert_eq!(p.payload, vec![0, 2, 0xC3, 0xA9]);
    assert_eq!(p.read_string(), Ok("é".to_string()));
}

#[test]
fn optional_string_has_a_flag() {
    let mut p = Packet::new();
    p.write_is_string("").unwrap();
    assert_eq!(p.payload, vec![0]);
    let mut q = Packet::new();
    q.write_is_string("ab").unwrap();
    assert_eq!(q.payload, vec![1, 0, 2, b'a', b'b']);
}

#[test]
fn plain_and_optional_strings_differ_on_the_wire() {
    let mut plain = Packet::new();
    plain.write_string("ab").unwrap();
    let mut optional = Packet::new();
    optional.write_is_string("ab").unwrap();
    assert_ne!(plain.payload, optional.payload);
    assert_eq!(optional.payload[1..], plain.payload[..]);
}

#[test]
fn overlong_string_keeps_the_low_bits_of_its_length() {
    let text = "a".repeat(0x1_0003);
    let mut p = Packet::new();
    p.write_string(&text).unwrap();
    assert_eq!(p.payload.len(), 2 + 0x1_0003);
    assert_eq!(&p.payload[..2], &[0, 3]);
}

#[test]
fn string_of_32768_bytes_is_not_read_back() {
    let text = "a".repeat(0x8000);
    let mut p = Packet::new();
    p.write_string(&text).unwrap();
    assert_eq!(&p.payload[..2], &[0x80, 0]);
    assert_eq!(p.read_string(), Err(PacketError::OutOfBounds));
    assert_eq!(p.offset, 0);
}

#[test]
fn longest_string_is_read_back() {
    let text = "a".repeat(0x7FFF);
    let mut p = Packet::new();
    p.write_string(&text).unwrap();
    assert_eq!(p.read_string(), Ok(text));
    assert_eq!(p.offset, 2 + 0x7FFF);
}

#[test]
fn read_bytes_moves_the_cursor() {
    let mut p = buffer(&[1, 2, 3, 4, 5]);
    assert_eq!(p.read_bytes(2), Ok(vec![1, 2]));
    assert_eq!(p.offset, 2);
    assert_eq!(p.read_bytes(0), Ok(vec![]));
    assert_eq!(p.read_bytes(3), Ok(vec![3, 4, 5]));
    assert_eq!(p.offset, 5);
    assert_eq!(p.read_bytes(1), Err(PacketError::OutOfBounds));
    assert_eq!(p.offset, 5);
}

#[test]
fn read_bytes_treats_overflow_as_out_of_bounds() {
    let mut p = buffer(&[1, 2, 3]);
    p.read_byte().unwrap();
    assert_eq!(p.read_bytes(usize::MAX), Err(PacketError::OutOfBounds));
    assert_eq!(p.offset, 1);
}

#[test]
fn cursor_beyond_the_end_reads_nothing() {
    let mut p = Packet { payload: vec![1, 2], offset: 7 };
    assert_eq!(p.read_bytes(0), Err(PacketError::OutOfBounds));
    assert_eq!(p.read_byte(), Err(PacketError::OutOfBounds));
    assert_eq!(p.offset, 7);
}

#[test]
fn read_i32_on_short_buffer_fails_twice_and_stays() {
    let mut p = buffer(&[0, 0, 1]);
    assert_eq!(p.read_i32(), Err(PacketError::OutOfBounds));
    assert_eq!(p.offset, 0);
    assert_eq!(p.read_i32(), Err(PacketError::OutOfBounds));
    assert_eq!(p.offset, 0);
    let mut q = buffer(&[9, 0, 0, 0, 5, 1]);
    assert_eq!(q.read_byte(), Ok(9));
    assert_eq!(q.read_i32(), Ok(5));
    assert_eq!(q.read_i32(), Err(PacketError::OutOfBounds));
    assert_eq!(q.read_i32(), Err(PacketError::OutOfBounds));
    assert_eq!(q.offset, 5);
}

#[test]
fn every_fixed_width_read_stays_on_failure() {
    let mut p = buffer(&[1]);
    assert_eq!(p.read_i16(), Err(PacketError::OutOfBounds));
    assert_eq!(p.read_i64(), Err(PacketError::OutOfBounds));
    assert_eq!(p.offset, 0);
    assert_eq!(p.read_bool(), Ok(true));
    assert_eq!(p.read_bool(), Err(PacketError::OutOfBounds));
    assert_eq!(p.read_byte(), Err(PacketError::OutOfBounds));
    assert_eq!(p.offset, 1);
}

#[test]
fn integers_are_read_big_endian() {
    let mut p = buffer(&[0xFF, 0xFE, 0x80, 0, 0, 0, 0, 0, 0, 0, 0, 0, 1, 0]);
    assert_eq!(p.read_i16(), Ok(-2));
    assert_eq!(p.read_i32(), Ok(i32::MIN));
    assert_eq!(p.read_i64(), Ok(256));
    assert_eq!(p.offset, 14);
}

#[test]
fn any_byte_but_zero_is_true() {
    let mut p = buffer(&[0, 1, 2, 255]);
    assert_eq!(p.read_bool(), Ok(false));
    assert_eq!(p.read_bool(), Ok(true));
    assert_eq!(p.read_bool(), Ok(true));
    assert_eq!(p.read_bool(), Ok(true));
}

#[test]
fn string_is_read_back() {
    let mut p = buffer(&[0, 5, b'w', b'a', b'n', b'a', b'n', 7]);
    assert_eq!(p.read_string(), Ok("wanan".to_string()));
    assert_eq!(p.offset, 7);
}

#[test]
fn invalid_utf8_is_its_own_error() {
    let mut p = buffer(&[0, 2, 0xC3, 0x28]);
    assert_eq!(p.read_string(), Err(PacketError::Utf8Error));
    assert_eq!(p.offset, 0);
    assert_ne!(PacketError::Utf8Error, PacketError::OutOfBounds);
}

#[test]
fn truncated_string_is_out_of_bounds() {
    let mut p = buffer(&[0, 4, b'a', b'b']);
    assert_eq!(p.read_string(), Err(PacketError::OutOfBounds));
    assert_eq!(p.offset, 0);
    let mut q = buffer(&[0]);
    assert_eq!(q.read_string(), Err(PacketError::OutOfBounds));
    assert_eq!(q.offset, 0);
}

#[test]
fn negative_string_length_is_out_of_bounds() {
    let mut p = buffer(&[0xFF, 0xFF, b'a', b'b']);
    assert_eq!(p.read_string(), Err(PacketError::OutOfBounds));
    assert_eq!(p.offset, 0);
}

#[test]
fn optional_string_is_read_back() {
    let mut p = buffer(&[0, 1, 0, 2, b'o', b'k']);
    assert_eq!(p.read_is_string(), Ok(String::new()));
    assert_eq!(p.offset, 1);
    assert_eq!(p.read_is_string(), Ok("ok".to_string()));
    assert_eq!(p.offset, 6);
    assert_eq!(p.read_is_string(), Err(PacketError::OutOfBounds));
    assert_eq!(p.offset, 6);
}

#[test]
fn failed_optional_string_leaves_the_flag_unread() {
    let mut p = buffer(&[1, 0, 9, b'a']);
    assert_eq!(p.read_is_string(), Err(PacketError::OutOfBounds));
    assert_eq!(p.offset, 0);
    let mut q = buffer(&[1, 0, 1, 0xFF]);
    assert_eq!(q.read_is_string(), Err(PacketError::Utf8Error));
    assert_eq!(q.offset, 0);
}

#[test]
fn reading_an_optional_string_as_plain_goes_astray() {
    let mut p = Packet::new();
    p.write_is_string("ab").unwrap();
    p.write_i32(7).unwrap();
    assert_ne!(p.read_string(), Ok("ab".to_string()));
}

#[test]
fn error_messages() {
    assert_eq!(PacketError::OutOfBounds.message(), "Read out of bounds");
    assert_eq!(PacketError::InvalidPacketType.message(), "Invalid packet type");
    assert_eq!(PacketError::Utf8Error.message(), "UTF-8 error: invalid utf-8 sequence");
    assert_eq!(PacketError::IoError("broken pipe".to_string()).message(), "IO error: broken pipe");
    assert_eq!(PacketError::InvalidUuid.message(), "Invalid UUID");
}

#[test]
fn utf8_failure_of_std_becomes_utf8_error() {
    let failure = String::from_utf8(vec![0xFF]).unwrap_err();
    assert_eq!(PacketError::from(failure), PacketError::Utf8Error);
}

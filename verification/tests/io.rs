use albesjourney::io::{PacketReader, ReadError, ReadExt, WriteExt};
use albesjourney::map::position::Position;
use albesjourney::player::{Gender, OutfitColors};

#[test]
fn reads_little_endian_numbers() {
    let data = [0x34u8, 0x12, 0x07];
    let mut r = PacketReader::new(&data);
    assert_eq!(r.read_u16_le(), Ok(0x1234));
    assert_eq!(r.read_u8(), Ok(7));
    assert_eq!(r.read_u8(), Err(ReadError::UnexpectedEof));
}

#[test]
fn reads_fixed_string_up_to_nul() {
    let mut data = b"Bob".to_vec();
    data.extend_from_slice(&[0, b'x', 0]);
    data.push(9);
    let mut r = PacketReader::new(&data);
    let mut s = String::new();
    assert_eq!(r.read_string(&mut s, 6), Ok(3));
    assert_eq!(s, "Bob");
    assert_eq!(r.read_u8(), Ok(9));
}

#[test]
fn short_fixed_string_is_an_error() {
    let data = b"Bo".to_vec();
    let mut r = PacketReader::new(&data);
    let mut s = String::new();
    assert_eq!(r.read_string(&mut s, 6), Err(ReadError::UnexpectedEof));
}

#[test]
fn reads_string_to_end() {
    let data = b"hello\0rest".to_vec();
    let mut r = PacketReader::new(&data);
    let mut s = String::new();
    assert_eq!(r.read_string_to_end(&mut s), Ok(()));
    assert_eq!(s, "hello");
    assert_eq!(r.read_u8(), Ok(b'r'));
}

#[test]
fn reads_position_outfit_and_gender() {
    let data = [12u8, 34, 0x4B, 0x2F, 0x00, 1, 0];
    let mut r = PacketReader::new(&data);
    assert_eq!(r.read_position(), Ok(Position::new(12, 34, 7)));
    assert_eq!(r.read_outfit_colors(), Ok(OutfitColors::new(2, 15, 4, 11)));
    assert_eq!(r.read_gender(), Ok(Gender::Male));
    assert_eq!(r.read_gender(), Ok(Gender::Female));
}

#[test]
fn skip_and_nibbles() {
    let data = [1u8, 2, 3, 0xA5];
    let mut r = PacketReader::new(&data);
    assert_eq!(r.skip(3), Ok(()));
    assert_eq!(r.read_u4(), Ok((0x0A, 0x05)));
    assert_eq!(r.skip(1), Err(ReadError::UnexpectedEof));
}

#[test]
fn writes_packet_header() {
    let mut buf: Vec<u8> = Vec::new();
    buf.write_packet(0x64);
    assert_eq!(buf, vec![0, 0, 0, 0, 0x64]);
}

#[test]
fn writes_numbers_and_strings() {
    let mut buf: Vec<u8> = Vec::new();
    buf.write_u16_le(0xBEEF);
    buf.write_u32_le(0x01020304);
    buf.write_null_terminated_string("ab");
    buf.write_fixed_string("xyz", 5);
    buf.write_fixed_string("toolong", 3);
    buf.write_zeroes(2);
    assert_eq!(buf, vec![0xEF, 0xBE, 4, 3, 2, 1, b'a', b'b', 0, b'x', b'y', b'z', 0, 0, b't', b'o', b'o', 0, 0]);
}

#[test]
fn outfit_written_reads_back() {
    let outfit = OutfitColors::new(3, 9, 14, 1);
    let mut buf: Vec<u8> = Vec::new();
    buf.write_outfit_colors(outfit);
    assert_eq!(buf, vec![0xE1, 0x39, 0x00]);
    let mut r = PacketReader::new(&buf);
    assert_eq!(r.read_outfit_colors(), Ok(outfit));
}

#[test]
fn position_and_gender_written_read_back() {
    let mut buf: Vec<u8> = Vec::new();
    buf.write_position(Position::new(200, 17, 7));
    buf.write_gender(Gender::Female);
    buf.write_gender(Gender::Male);
    assert_eq!(buf, vec![200, 17, 0, 1]);
    let mut r = PacketReader::new(&buf);
    assert_eq!(r.read_position(), Ok(Position::new(200, 17, 7)));
    assert_eq!(r.read_gender(), Ok(Gender::Female));
    assert_eq!(r.read_gender(), Ok(Gender::Male));
}

#[test]
fn packed_nibbles() {
    let mut buf: Vec<u8> = Vec::new();
    buf.write_u4(0x0C, 0x03);
    assert_eq!(buf, vec![0xC3]);
}

#[test]
fn fixed_string_written_reads_back() {
    let mut buf: Vec<u8> = Vec::new();
    buf.write_fixed_string("Alice", 8);
    buf.write_fixed_string("Bartholomew", 4);
    buf.write_u8(42);
    let mut r = PacketReader::new(&buf);
    let mut a = String::new();
    assert_eq!(r.read_string(&mut a, 8), Ok(5));
    assert_eq!(a, "Alice");
    let mut b = String::new();
    assert_eq!(r.read_string(&mut b, 4), Ok(4));
    assert_eq!(b, "Bart");
    assert_eq!(r.read_u8(), Ok(42));
}

use agent::error::Error;
use agent::varint::{read_varint, write_varint};

fn encode(v: u32) -> Vec<u8> {
    let mut out = Vec::new();
    write_varint(v, &mut out);
    out
}

#[test]
fn varint_round_trip() {
    for &v in &[0u32, 1, 2, 127, 128, 255, 300, 16383, 16384, 2097151, 2097152, 0x0fff_ffff, 0x1000_0000, u32::MAX] {
        let bytes = encode(v);
        assert!(bytes.len() >= 1 && bytes.len() <= 5, "encoding of {v} took {} bytes", bytes.len());
        let (decoded, end) = read_varint(&bytes, 0).expect("well-formed encoding must decode");
        assert_eq!(decoded, v);
        assert_eq!(end, bytes.len());
    }
}

#[test]
fn varint_known_bytes() {
    assert_eq!(encode(0), vec![0x00]);
    assert_eq!(encode(1), vec![0x01]);
    assert_eq!(encode(127), vec![0x7f]);
    assert_eq!(encode(128), vec![0x80, 0x01]);
    assert_eq!(encode(300), vec![0xac, 0x02]);
    assert_eq!(encode(u32::MAX), vec![0xff, 0xff, 0xff, 0xff, 0x0f]);
}

#[test]
fn varint_ignores_trailing_bytes() {
    let mut bytes = encode(300);
    bytes.extend_from_slice(&[0xde, 0xad]);
    let (decoded, end) = read_varint(&bytes, 0).unwrap();
    assert_eq!(decoded, 300);
    assert_eq!(end, 2);
}

#[test]
fn varint_six_continuation_bytes_is_malformed() {
    let bytes = vec![0x80u8, 0x80, 0x80, 0x80, 0x80, 0x80];
    assert_eq!(read_varint(&bytes, 0), Err(Error::MalformedVarInt));
}

#[test]
fn varint_fifth_byte_overflow_is_malformed() {
    // The fifth byte may only carry four value bits.
    let bytes = vec![0xffu8, 0xff, 0xff, 0xff, 0x10];
    assert_eq!(read_varint(&bytes, 0), Err(Error::MalformedVarInt));
}

#[test]
fn varint_truncated_chain_is_unexpected_eof() {
    let bytes = vec![0x80u8, 0x80];
    assert_eq!(read_varint(&bytes, 0), Err(Error::UnexpectedEof));
    let empty: Vec<u8> = Vec::new();
    assert_eq!(read_varint(&empty, 0), Err(Error::UnexpectedEof));
}

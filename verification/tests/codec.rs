use esphome::frame::{read_frame_header, write_frame, HeaderResult};
use esphome::varint::{decode_varint32, encode_varint32};
use esphome::VarintResult;

fn varint_round_trip(value: u32) -> Vec<u8> {
    let enc = encode_varint32(value);
    assert!(enc.len() >= 1 && enc.len() <= 5);
    // decoding straight off the encoding, with trailing junk behind it
    let mut data = enc.clone();
    data.push(0xEE);
    data.push(0xEE);
    match decode_varint32(&data, 0) {
        VarintResult::Value { value: got, end } => {
            assert_eq!(got, value);
            assert_eq!(end, enc.len());
        }
        other => panic!("expected a value, got {:?}", other),
    }
    enc
}

#[test]
fn varint_boundary_values_round_trip() {
    assert_eq!(varint_round_trip(0), vec![0x00]);
    assert_eq!(varint_round_trip(127), vec![0x7F]);
    assert_eq!(varint_round_trip(128), vec![0x80, 0x01]);
    assert_eq!(varint_round_trip(16383), vec![0xFF, 0x7F]);
    assert_eq!(varint_round_trip(16384), vec![0x80, 0x80, 0x01]);
    assert_eq!(
        varint_round_trip(u32::MAX),
        vec![0xFF, 0xFF, 0xFF, 0xFF, 0x0F]
    );
}

#[test]
fn varint_unterminated_five_bytes_is_malformed() {
    let data = vec![0x80, 0x80, 0x80, 0x80, 0x80, 0x01];
    assert_eq!(decode_varint32(&data, 0), VarintResult::Malformed);
}

#[test]
fn varint_over_32_bits_is_malformed() {
    // 2^32 exactly: terminates in five bytes but does not fit in 32 bits
    let data = vec![0x80, 0x80, 0x80, 0x80, 0x10];
    assert_eq!(decode_varint32(&data, 0), VarintResult::Malformed);
}

#[test]
fn varint_truncated_is_incomplete() {
    let data = vec![0x80, 0x80];
    assert_eq!(decode_varint32(&data, 0), VarintResult::Incomplete);
    let empty: Vec<u8> = Vec::new();
    assert_eq!(decode_varint32(&empty, 0), VarintResult::Incomplete);
}

#[test]
fn varint_offset_decode() {
    let data = vec![0xAA, 0xBB, 0x80, 0x02];
    assert_eq!(
        decode_varint32(&data, 2),
        VarintResult::Value { value: 256, end: 4 }
    );
}

fn frame_round_trip(type_tag: u32, payload: Vec<u8>) {
    let frame = write_frame(type_tag, &payload);
    assert_eq!(frame[0], 0x00, "frame starts with the zero marker byte");
    match read_frame_header(&frame, 0) {
        HeaderResult::Header { header, end } => {
            assert_eq!(header.message_length() as usize, payload.len());
            assert_eq!(header.message_type(), type_tag);
            assert_eq!(&frame[end..], &payload[..]);
        }
        other => panic!("expected a header, got {:?}", other),
    }
}

#[test]
fn frame_round_trip_empty_payload() {
    frame_round_trip(10, Vec::new());
}

#[test]
fn frame_round_trip_one_byte_payload() {
    frame_round_trip(3, vec![0x42]);
}

#[test]
fn frame_round_trip_large_payload() {
    let payload: Vec<u8> = (0..10000u32).map(|i| (i % 251) as u8).collect();
    frame_round_trip(10, payload);
}

#[test]
fn frame_header_wire_layout() {
    let frame = write_frame(7, &vec![0xAA, 0xBB]);
    assert_eq!(frame, vec![0x00, 0x02, 0x07, 0xAA, 0xBB]);
}

#[test]
fn frame_header_incomplete_and_malformed() {
    let nothing: Vec<u8> = Vec::new();
    assert_eq!(read_frame_header(&nothing, 0), HeaderResult::Incomplete);
    let marker_only = vec![0x00];
    assert_eq!(read_frame_header(&marker_only, 0), HeaderResult::Incomplete);
    let bad_length = vec![0x00, 0x80, 0x80, 0x80, 0x80, 0x80];
    assert_eq!(read_frame_header(&bad_length, 0), HeaderResult::Malformed);
}

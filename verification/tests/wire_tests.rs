use wscat_rust::fields::{decode_int32_fields, encode_int32_field};
use wscat_rust::wire::{
    decode_delimited, decode_key, encode_delimited, encode_key, int32_as_varint,
    int32_from_varint, MessageDecodeError, WireType, MAX_TAG, MIN_TAG,
};

fn key(tag: u32, wire_type: WireType) -> Vec<u8> {
    let mut buf = Vec::new();
    encode_key(tag, wire_type, &mut buf);
    buf
}

#[test]
fn key_of_a_small_field_is_one_byte() {
    assert_eq!(key(1, WireType::Varint), vec![0x08]);
    assert_eq!(key(2, WireType::Varint), vec![0x10]);
    assert_eq!(key(1, WireType::LengthDelimited), vec![0x0a]);
    assert_eq!(key(2, WireType::LengthDelimited), vec![0x12]);
    assert_eq!(key(3, WireType::ThirtyTwoBit), vec![0x1d]);
    assert_eq!(key(3, WireType::SixtyFourBit), vec![0x19]);
    assert_eq!(key(3, WireType::StartGroup), vec![0x1b]);
    assert_eq!(key(3, WireType::EndGroup), vec![0x1c]);
}

#[test]
fn key_of_field_sixteen_takes_two_bytes() {
    assert_eq!(key(16, WireType::Varint), vec![0x80, 0x01]);
}

#[test]
fn key_of_the_largest_field_takes_five_bytes() {
    assert_eq!(MIN_TAG, 1);
    assert_eq!(MAX_TAG, (1 << 29) - 1);
    assert_eq!(key(MAX_TAG, WireType::ThirtyTwoBit), vec![0xfd, 0xff, 0xff, 0xff, 0x0f]);
}

#[test]
fn key_is_appended_behind_what_the_buffer_holds() {
    let mut buf = vec![0xaa, 0xbb];
    encode_key(2, WireType::Varint, &mut buf);
    assert_eq!(buf, vec![0xaa, 0xbb, 0x10]);
}

#[test]
fn key_is_read_and_the_rest_handed_back() {
    let bytes = [0x08, 0x07, 0x10];
    let (tag, wire_type, rest) = decode_key(&bytes).unwrap();
    assert_eq!(tag, 1);
    assert_eq!(wire_type, WireType::Varint);
    assert_eq!(rest, &[0x07, 0x10]);
}

#[test]
fn key_round_trip_for_every_wire_type() {
    let kinds = [
        WireType::Varint,
        WireType::SixtyFourBit,
        WireType::LengthDelimited,
        WireType::StartGroup,
        WireType::EndGroup,
        WireType::ThirtyTwoBit,
    ];
    for tag in [1u32, 2, 15, 16, 2047, 2048, MAX_TAG] {
        for kind in kinds {
            let bytes = key(tag, kind);
            let (t, w, rest) = decode_key(&bytes).unwrap();
            assert_eq!((t, w), (tag, kind));
            assert!(rest.is_empty());
        }
    }
}

#[test]
fn key_of_nothing_is_refused() {
    assert_eq!(decode_key(&[]), Err(MessageDecodeError));
}

#[test]
fn key_with_field_number_zero_is_refused() {
    assert_eq!(decode_key(&[0x00]), Err(MessageDecodeError));
    assert_eq!(decode_key(&[0x05]), Err(MessageDecodeError));
}

#[test]
fn key_with_an_unknown_wire_type_is_refused() {
    assert_eq!(decode_key(&[0x0e]), Err(MessageDecodeError));
    assert_eq!(decode_key(&[0x0f]), Err(MessageDecodeError));
}

#[test]
fn key_that_breaks_off_is_refused() {
    assert_eq!(decode_key(&[0x80]), Err(MessageDecodeError));
    assert_eq!(decode_key(&[0x88, 0x80]), Err(MessageDecodeError));
}

#[test]
fn key_above_32_bits_is_refused() {
    assert_eq!(decode_key(&[0x80, 0x80, 0x80, 0x80, 0x10]), Err(MessageDecodeError));
    let (tag, wire_type, rest) = decode_key(&[0xfd, 0xff, 0xff, 0xff, 0x0f]).unwrap();
    assert_eq!((tag, wire_type), (MAX_TAG, WireType::ThirtyTwoBit));
    assert!(rest.is_empty());
}

#[test]
fn wire_type_numbers() {
    assert_eq!(WireType::Varint.to_number(), 0);
    assert_eq!(WireType::SixtyFourBit.to_number(), 1);
    assert_eq!(WireType::LengthDelimited.to_number(), 2);
    assert_eq!(WireType::StartGroup.to_number(), 3);
    assert_eq!(WireType::EndGroup.to_number(), 4);
    assert_eq!(WireType::ThirtyTwoBit.to_number(), 5);
    for number in 0u64..6 {
        let kind = WireType::from_number(number).unwrap();
        assert_eq!(u64::from(kind.to_number()), number);
    }
    assert_eq!(WireType::from_number(6), None);
    assert_eq!(WireType::from_number(7), None);
    assert_eq!(WireType::from_number(u64::MAX), None);
}

#[test]
fn int32_is_sign_extended_into_its_varint() {
    assert_eq!(int32_as_varint(0), 0);
    assert_eq!(int32_as_varint(12), 12);
    assert_eq!(int32_as_varint(i32::MAX), 0x7fff_ffff);
    assert_eq!(int32_as_varint(-1), u64::MAX);
    assert_eq!(int32_as_varint(-2), u64::MAX - 1);
    assert_eq!(int32_as_varint(i32::MIN), 0xffff_ffff_8000_0000);
}

#[test]
fn int32_is_the_low_half_of_its_varint() {
    assert_eq!(int32_from_varint(0), 0);
    assert_eq!(int32_from_varint(12), 12);
    assert_eq!(int32_from_varint(0x7fff_ffff), i32::MAX);
    assert_eq!(int32_from_varint(0x8000_0000), i32::MIN);
    assert_eq!(int32_from_varint(0xffff_ffff), -1);
    assert_eq!(int32_from_varint(0x1_0000_0005), 5);
    assert_eq!(int32_from_varint(u64::MAX), -1);
    assert_eq!(int32_from_varint(0xffff_ffff_8000_0000), i32::MIN);
}

#[test]
fn int32_round_trip_through_its_varint() {
    for value in [0, 1, -1, 19, 127, 128, -128, 65_535, i32::MAX, i32::MIN, i32::MIN + 1] {
        assert_eq!(int32_from_varint(int32_as_varint(value)), value);
    }
}

#[test]
fn delimited_payload_is_written_behind_its_length() {
    let mut buf = vec![0x0a];
    encode_delimited(&[1, 2, 3], &mut buf);
    assert_eq!(buf, vec![0x0a, 0x03, 1, 2, 3]);
    let mut empty = Vec::new();
    encode_delimited(&[], &mut empty);
    assert_eq!(empty, vec![0x00]);
}

#[test]
fn delimited_payload_of_300_bytes_has_a_two_byte_length() {
    let payload = vec![0x41u8; 300];
    let mut buf = Vec::new();
    encode_delimited(&payload, &mut buf);
    assert_eq!(buf.len(), 302);
    assert_eq!(&buf[..2], &[0xac, 0x02]);
    let (read, rest) = decode_delimited(&buf).unwrap();
    assert_eq!(read, &payload[..]);
    assert!(rest.is_empty());
}

#[test]
fn delimited_payload_is_read_and_the_rest_handed_back() {
    let bytes = [0x03, 1, 2, 3, 9, 8];
    let (payload, rest) = decode_delimited(&bytes).unwrap();
    assert_eq!(payload, &[1, 2, 3]);
    assert_eq!(rest, &[9, 8]);
    let (payload, rest) = decode_delimited(&[0x00]).unwrap();
    assert!(payload.is_empty());
    assert!(rest.is_empty());
}

#[test]
fn delimited_payload_longer_than_the_buffer_is_refused() {
    assert_eq!(decode_delimited(&[0x05, 1, 2]), Err(MessageDecodeError));
    assert_eq!(decode_delimited(&[]), Err(MessageDecodeError));
    assert_eq!(decode_delimited(&[0x80]), Err(MessageDecodeError));
    assert_eq!(
        decode_delimited(&[0xff, 0xff, 0xff, 0xff, 0xff, 0xff, 0xff, 0xff, 0xff, 0x01, 0x00]),
        Err(MessageDecodeError)
    );
}

#[test]
fn int32_field_is_left_out_when_zero() {
    let mut buf = Vec::new();
    encode_int32_field(1, 0, &mut buf);
    assert!(buf.is_empty());
    encode_int32_field(1, 7, &mut buf);
    assert_eq!(buf, vec![0x08, 0x07]);
    encode_int32_field(2, 300, &mut buf);
    assert_eq!(buf, vec![0x08, 0x07, 0x10, 0xac, 0x02]);
}

#[test]
fn int32_field_below_zero_takes_ten_bytes() {
    let mut buf = Vec::new();
    encode_int32_field(1, -1, &mut buf);
    assert_eq!(buf, vec![0x08, 0xff, 0xff, 0xff, 0xff, 0xff, 0xff, 0xff, 0xff, 0xff, 0x01]);
    assert_eq!(decode_int32_fields(1, (0, 0), &buf), Ok((-1, 0)));
}

#[test]
fn int32_fields_are_merged_into_what_is_held() {
    assert_eq!(decode_int32_fields(2, (3, 4), &[]), Ok((3, 4)));
    assert_eq!(decode_int32_fields(2, (3, 4), &[0x08, 0x09]), Ok((9, 4)));
    assert_eq!(decode_int32_fields(2, (3, 4), &[0x10, 0x09]), Ok((3, 9)));
    assert_eq!(decode_int32_fields(2, (3, 4), &[0x10, 0x09, 0x08, 0x01]), Ok((1, 9)));
}

#[test]
fn int32_field_two_is_unknown_to_a_message_of_one_field() {
    assert_eq!(decode_int32_fields(1, (0, 0), &[0x10, 0x09, 0x08, 0x01]), Ok((1, 0)));
    assert_eq!(decode_int32_fields(1, (0, 0), &[0x12, 0x01, 0xff, 0x08, 0x01]), Ok((1, 0)));
    assert_eq!(decode_int32_fields(2, (0, 0), &[0x12, 0x01, 0xff]), Err(MessageDecodeError));
}

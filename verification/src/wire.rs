//! Protocol Buffers wire primitives: base-128 varints, field keys, 32-bit
//! integers carried in varints, and the skipping of fields that a message
//! does not know.

use vstd::prelude::*;
use vstd::slice::slice_subrange;
use vstd::utf8::{decode_utf8, valid_utf8};

verus! {

/// The six ways a field's payload can be laid out on the wire.
#[derive(Clone, Copy, Debug, PartialEq, Eq, Structural)]
pub enum WireType {
    Varint,
    SixtyFourBit,
    LengthDelimited,
    StartGroup,
    EndGroup,
    ThirtyTwoBit,
}

/// The failure of a payload to match the expected message shape.
#[derive(Clone, Copy, Debug, PartialEq, Eq, Structural)]
pub struct MessageDecodeError;

/// The error type of `prost`, carried through and never inspected.
#[verifier::external_type_specification]
#[verifier::external_body]
pub struct ExProstDecodeError(prost::DecodeError);

/// The smallest field number.
pub const MIN_TAG: u32 = 1;

/// The largest field number.
pub const MAX_TAG: u32 = 0x1FFF_FFFF;

/// The base-128 encoding of `value`: seven bits to a byte, least significant
/// group first, the top bit set on every byte but the last.
pub open spec fn varint_bytes(value: nat) -> Seq<u8>
    decreases value,
{
    if value < 128 {
        seq![value as u8]
    } else {
        seq![(value % 128 + 128) as u8] + varint_bytes(value / 128)
    }
}

/// The varint at the front of `bytes`, as its value and the number of bytes
/// it takes, when `place` groups of it have been read before `bytes`.
///
/// A varint ends at its first byte below 128. It has at most ten bytes, and a
/// tenth byte may only be 0 or 1, so that the value fits in 64 bits.
pub open spec fn varint_prefix(bytes: Seq<u8>, place: nat) -> Option<(nat, nat)>
    decreases bytes.len(),
{
    if place >= 10 || bytes.len() == 0 {
        None
    } else if bytes[0] < 128 {
        if place == 9 && bytes[0] >= 2 {
            None
        } else {
            Some((bytes[0] as nat, 1nat))
        }
    } else {
        match varint_prefix(bytes.skip(1), place + 1) {
            Some((high, used)) => Some(((bytes[0] - 128 + 128 * high) as nat, used + 1)),
            None => None,
        }
    }
}

/// The varint at the front of `bytes`: its value and its length in bytes.
pub open spec fn read_varint(bytes: Seq<u8>) -> Option<(nat, nat)> {
    varint_prefix(bytes, 0)
}

/// One more than the largest value that a varint can still hold when `place`
/// of its groups have been read.
pub open spec fn varint_limit(place: nat) -> nat
    decreases 9 - place,
{
    if place >= 9 {
        2
    } else {
        128 * varint_limit(place + 1)
    }
}

/// A whole varint holds exactly the 64-bit values.
pub proof fn lemma_varint_limit_zero()
    ensures
        varint_limit(0) == 0x1_0000_0000_0000_0000,
{
    reveal_with_fuel(varint_limit, 11);
}

/// Every place leaves room for at least the values 0 and 1.
pub proof fn lemma_varint_limit_floor(place: nat)
    ensures
        varint_limit(place) >= 2,
        place < 9 ==> varint_limit(place) == 128 * varint_limit(place + 1),
    decreases 9 - place,
{
    if place < 9 {
        lemma_varint_limit_floor(place + 1);
    }
}

/// A varint that is read lies within its bytes and below the limit of its
/// place.
pub proof fn lemma_varint_prefix_bounds(bytes: Seq<u8>, place: nat)
    ensures
        varint_prefix(bytes, place) matches Some((value, used)) ==> 1 <= used <= bytes.len()
            && used + place <= 10 && value < varint_limit(place),
    decreases bytes.len(),
{
    lemma_varint_limit_floor(place);
    if place < 10 && bytes.len() > 0 && bytes[0] >= 128 {
        lemma_varint_prefix_bounds(bytes.skip(1), place + 1);
    }
}

/// A varint that is read fits in 64 bits and lies within its bytes.
pub proof fn lemma_read_varint_bounds(bytes: Seq<u8>)
    ensures
        read_varint(bytes) matches Some((value, used)) ==> 1 <= used <= bytes.len() && used <= 10
            && value <= u64::MAX,
{
    lemma_varint_prefix_bounds(bytes, 0);
    lemma_varint_limit_zero();
}

/// The encoding of a value is one to ten bytes long.
pub proof fn lemma_varint_bytes_len(value: nat, place: nat)
    requires
        place <= 9,
        value < varint_limit(place),
    ensures
        1 <= varint_bytes(value).len() <= 10 - place,
    decreases value,
{
    lemma_varint_limit_floor(place);
    if value >= 128 {
        lemma_varint_bytes_len(value / 128, place + 1);
    }
}

/// Reading gives back what was written, whatever follows it.
pub proof fn lemma_varint_prefix_of_bytes(value: nat, place: nat, rest: Seq<u8>)
    requires
        place <= 9,
        value < varint_limit(place),
    ensures
        varint_prefix(varint_bytes(value) + rest, place) == Some(
            (value, varint_bytes(value).len()),
        ),
    decreases value,
{
    lemma_varint_limit_floor(place);
    let bytes = varint_bytes(value) + rest;
    if value < 128 {
        assert(bytes[0] == value);
    } else {
        assert(bytes[0] == value % 128 + 128);
        assert(bytes.skip(1) =~= varint_bytes(value / 128) + rest);
        lemma_varint_prefix_of_bytes(value / 128, place + 1, rest);
    }
}

/// Reading a 64-bit value's encoding gives the value back, whatever follows.
pub proof fn lemma_varint_round_trip(value: u64, rest: Seq<u8>)
    ensures
        read_varint(varint_bytes(value as nat) + rest) == Some(
            (value as nat, varint_bytes(value as nat).len()),
        ),
        1 <= varint_bytes(value as nat).len() <= 10,
{
    lemma_varint_limit_zero();
    lemma_varint_prefix_of_bytes(value as nat, 0, rest);
    lemma_varint_bytes_len(value as nat, 0);
}

/// Appends the varint of `value` to `buf`, by `prost::encoding::encode_varint`.
///
/// Trusted: the bytes appended are the base-128 encoding of `value`, and what
/// `buf` held before stays in front of them.
#[verifier::external_body]
fn encode_varint(value: u64, buf: &mut Vec<u8>)
    ensures
        final(buf)@ == old(buf)@ + varint_bytes(value as nat),
{
    prost::encoding::encode_varint(value, buf)
}

/// Appends the varint of `value` to `buf`.
pub fn put_varint(value: u64, buf: &mut Vec<u8>)
    ensures
        final(buf)@ == old(buf)@ + varint_bytes(value as nat),
        1 <= varint_bytes(value as nat).len() <= 10,
{
    proof {
        lemma_varint_round_trip(value, Seq::empty());
    }
    encode_varint(value, buf)
}

/// Reads one varint from the front of `buf`, by
/// `prost::encoding::decode_varint`, and hands back what follows it.
///
/// Trusted: the call succeeds exactly where a varint stands at the front of
/// `buf`, returns its value, and advances past its bytes and no further.
#[verifier::external_body]
fn decode_varint<'a>(buf: &'a [u8]) -> (r: Result<(u64, &'a [u8]), prost::DecodeError>)
    ensures
        match read_varint(buf@) {
            Some((value, used)) => r matches Ok((v, rest)) && v == value && rest@ == buf@.skip(
                used as int,
            ),
            None => r is Err,
        },
{
    let mut rest = buf;
    match prost::encoding::decode_varint(&mut rest) {
        Ok(value) => Ok((value, rest)),
        Err(e) => Err(e),
    }
}

/// Reads one varint from the front of `buf` and hands back its value and
/// what follows it.
pub fn take_varint<'a>(buf: &'a [u8]) -> (r: Result<(u64, &'a [u8]), MessageDecodeError>)
    ensures
        match read_varint(buf@) {
            Some((value, used)) => r matches Ok((v, rest)) && v == value && rest@ == buf@.skip(
                used as int,
            ),
            None => r is Err,
        },
{
    match decode_varint(buf) {
        Ok(read) => Ok(read),
        Err(_) => Err(MessageDecodeError),
    }
}

impl WireType {
    /// The number that stands for the wire type in a field key.
    pub open spec fn number(self) -> nat {
        match self {
            WireType::Varint => 0,
            WireType::SixtyFourBit => 1,
            WireType::LengthDelimited => 2,
            WireType::StartGroup => 3,
            WireType::EndGroup => 4,
            WireType::ThirtyTwoBit => 5,
        }
    }

    /// The wire type that `number` stands for, if any.
    pub open spec fn of_number(number: nat) -> Option<WireType> {
        if number == 0 {
            Some(WireType::Varint)
        } else if number == 1 {
            Some(WireType::SixtyFourBit)
        } else if number == 2 {
            Some(WireType::LengthDelimited)
        } else if number == 3 {
            Some(WireType::StartGroup)
        } else if number == 4 {
            Some(WireType::EndGroup)
        } else if number == 5 {
            Some(WireType::ThirtyTwoBit)
        } else {
            None
        }
    }

    /// The number that stands for the wire type in a field key.
    pub fn to_number(self) -> (r: u8)
        ensures
            r == self.number(),
    {
        match self {
            WireType::Varint => 0,
            WireType::SixtyFourBit => 1,
            WireType::LengthDelimited => 2,
            WireType::StartGroup => 3,
            WireType::EndGroup => 4,
            WireType::ThirtyTwoBit => 5,
        }
    }

    /// The wire type that `number` stands for; numbers above 5 stand for none.
    pub fn from_number(number: u64) -> (r: Option<WireType>)
        ensures
            r == WireType::of_number(number as nat),
    {
        if number == 0 {
            Some(WireType::Varint)
        } else if number == 1 {
            Some(WireType::SixtyFourBit)
        } else if number == 2 {
            Some(WireType::LengthDelimited)
        } else if number == 3 {
            Some(WireType::StartGroup)
        } else if number == 4 {
            Some(WireType::EndGroup)
        } else if number == 5 {
            Some(WireType::ThirtyTwoBit)
        } else {
            None
        }
    }
}

/// The bytes of the key that opens a field: the field number shifted left by
/// three bits, with the wire type in the low three, as a varint.
pub open spec fn key_bytes(tag: u32, wire_type: WireType) -> Seq<u8> {
    varint_bytes((tag * 8 + wire_type.number()) as nat)
}

/// The key at the front of `bytes`: the field number, the wire type and the
/// key's length in bytes. A key must fit in 32 bits, name one of the six wire
/// types and a field number of at least 1.
pub open spec fn read_key(bytes: Seq<u8>) -> Option<(u32, WireType, nat)> {
    match read_varint(bytes) {
        Some((key, used)) => {
            if key <= u32::MAX && key / 8 >= 1 {
                match WireType::of_number(key % 8) {
                    Some(wire_type) => Some(((key / 8) as u32, wire_type, used)),
                    None => None,
                }
            } else {
                None
            }
        },
        None => None,
    }
}

/// A key that is read lies within its bytes.
pub proof fn lemma_read_key_bounds(bytes: Seq<u8>)
    ensures
        read_key(bytes) matches Some((tag, wire_type, used)) ==> 1 <= used <= bytes.len() && tag
            >= 1,
{
    lemma_read_varint_bounds(bytes);
}

/// Reading a key's bytes gives the key back, whatever follows.
pub proof fn lemma_key_round_trip(tag: u32, wire_type: WireType, rest: Seq<u8>)
    requires
        MIN_TAG <= tag <= MAX_TAG,
    ensures
        read_key(key_bytes(tag, wire_type) + rest) == Some(
            (tag, wire_type, key_bytes(tag, wire_type).len()),
        ),
{
    let key: nat = (tag * 8 + wire_type.number()) as nat;
    assert(key <= u32::MAX);
    assert(key / 8 == tag);
    assert(key % 8 == wire_type.number());
    lemma_varint_round_trip(key as u64, rest);
}

/// Appends the key of a field to `buf`.
pub fn encode_key(tag: u32, wire_type: WireType, buf: &mut Vec<u8>)
    requires
        MIN_TAG <= tag <= MAX_TAG,
    ensures
        final(buf)@ == old(buf)@ + key_bytes(tag, wire_type),
{
    let key: u64 = tag as u64 * 8 + wire_type.to_number() as u64;
    put_varint(key, buf);
}

/// Reads the key of a field from the front of `buf` and hands back what
/// follows it.
pub fn decode_key<'a>(buf: &'a [u8]) -> (r: Result<(u32, WireType, &'a [u8]), MessageDecodeError>)
    ensures
        match read_key(buf@) {
            Some((tag, wire_type, used)) => r matches Ok((t, w, rest)) && t == tag && w
                == wire_type && rest@ == buf@.skip(used as int),
            None => r is Err,
        },
{
    match take_varint(buf) {
        Err(e) => Err(e),
        Ok((key, rest)) => {
            if key > 0xFFFF_FFFF || key / 8 < 1 {
                return Err(MessageDecodeError);
            }
            match WireType::from_number(key % 8) {
                None => Err(MessageDecodeError),
                Some(wire_type) => Ok(((key / 8) as u32, wire_type, rest)),
            }
        },
    }
}

/// The varint that carries a signed 32-bit integer: the integer extended to
/// 64 bits in two's complement.
pub open spec fn int32_to_varint(value: i32) -> nat {
    if value >= 0 {
        value as nat
    } else {
        (value + 0x1_0000_0000_0000_0000) as nat
    }
}

/// The signed 32-bit integer that a varint carries: its low 32 bits in two's
/// complement.
pub open spec fn varint_to_int32(value: nat) -> i32 {
    let low = value % 0x1_0000_0000;
    if low < 0x8000_0000 {
        low as i32
    } else {
        (low - 0x1_0000_0000) as i32
    }
}

/// A signed 32-bit integer survives the way through a varint.
pub proof fn lemma_int32_round_trip(value: i32)
    ensures
        int32_to_varint(value) <= u64::MAX,
        varint_to_int32(int32_to_varint(value)) == value,
{
}

/// The varint that carries `value`.
pub fn int32_as_varint(value: i32) -> (r: u64)
    ensures
        r == int32_to_varint(value),
{
    if value >= 0 {
        value as u64
    } else {
        let below: i64 = -1 - value as i64;
        u64::MAX - below as u64
    }
}

/// The signed 32-bit integer that the varint `value` carries.
pub fn int32_from_varint(value: u64) -> (r: i32)
    ensures
        r == varint_to_int32(value as nat),
{
    let low: u64 = value % 0x1_0000_0000;
    if low < 0x8000_0000 {
        low as i32
    } else {
        (low as i64 - 0x1_0000_0000) as i32
    }
}

/// A payload behind its length: the length as a varint, then the bytes.
pub open spec fn delimited_bytes(payload: Seq<u8>) -> Seq<u8> {
    varint_bytes(payload.len()) + payload
}

/// The length-delimited payload at the front of `bytes`, and the number of
/// bytes that length and payload take together. The payload must lie within
/// `bytes`.
pub open spec fn read_delimited(bytes: Seq<u8>) -> Option<(Seq<u8>, nat)> {
    match read_varint(bytes) {
        Some((len, used)) => {
            if used + len <= bytes.len() {
                Some((bytes.subrange(used as int, (used + len) as int), used + len))
            } else {
                None
            }
        },
        None => None,
    }
}

/// Reading a delimited payload gives the payload back, whatever follows.
pub proof fn lemma_delimited_round_trip(payload: Seq<u8>, rest: Seq<u8>)
    requires
        payload.len() <= u64::MAX,
    ensures
        read_delimited(delimited_bytes(payload) + rest) == Some(
            (payload, delimited_bytes(payload).len()),
        ),
{
    let head = varint_bytes(payload.len());
    let bytes = delimited_bytes(payload) + rest;
    assert(bytes =~= head + (payload + rest));
    lemma_varint_round_trip(payload.len() as u64, payload + rest);
    assert(bytes.subrange(head.len() as int, (head.len() + payload.len()) as int) =~= payload);
}

/// Appends `payload` behind its length to `buf`.
pub fn encode_delimited(payload: &[u8], buf: &mut Vec<u8>)
    ensures
        final(buf)@ == old(buf)@ + delimited_bytes(payload@),
{
    put_varint(payload.len() as u64, buf);
    buf.extend_from_slice(payload);
    assert(buf@ =~= old(buf)@ + delimited_bytes(payload@));
}

/// Reads a length-delimited payload from the front of `buf` and hands back
/// the payload and what follows it.
pub fn decode_delimited<'a>(buf: &'a [u8]) -> (r: Result<
    (&'a [u8], &'a [u8]),
    MessageDecodeError,
>)
    ensures
        match read_delimited(buf@) {
            Some((payload, used)) => r matches Ok((p, rest)) && p@ == payload && rest@
                == buf@.skip(used as int),
            None => r is Err,
        },
{
    proof {
        lemma_read_varint_bounds(buf@);
    }
    match take_varint(buf) {
        Err(e) => Err(e),
        Ok((len, rest)) => {
            if len > rest.len() as u64 {
                return Err(MessageDecodeError);
            }
            let split: usize = len as usize;
            let payload = slice_subrange(rest, 0, split);
            let after = slice_subrange(rest, split, rest.len());
            proof {
                let used = (buf@.len() - rest@.len()) as nat;
                assert(payload@ =~= buf@.subrange(used as int, (used + len) as int));
                assert(after@ =~= buf@.skip(used + len));
            }
            Ok((payload, after))
        },
    }
}

/// The number of bytes that `prost::encoding::skip_field` passes over at the
/// front of `buf` for a field of the given wire type and number, where it
/// succeeds.
pub uninterp spec fn skipped_len(wire_type: WireType, tag: u32, buf: Seq<u8>) -> Option<nat>;

/// Passes over the payload of a field that the message does not know, by
/// `prost::encoding::skip_field` with a fresh decoding context, and hands
/// back what follows the payload.
///
/// Trusted: whether the call succeeds and how far it advances depend on the
/// wire type, the field number and the bytes alone, and it never advances
/// past the end of `buf`.
#[verifier::external_body]
fn skip_field<'a>(wire_type: WireType, tag: u32, buf: &'a [u8]) -> (r: Result<
    &'a [u8],
    prost::DecodeError,
>)
    ensures
        match skipped_len(wire_type, tag, buf@) {
            Some(used) => r matches Ok(rest) && used <= buf@.len() && rest@ == buf@.skip(
                used as int,
            ),
            None => r is Err,
        },
{
    let kind = match wire_type {
        WireType::Varint => prost::encoding::WireType::Varint,
        WireType::SixtyFourBit => prost::encoding::WireType::SixtyFourBit,
        WireType::LengthDelimited => prost::encoding::WireType::LengthDelimited,
        WireType::StartGroup => prost::encoding::WireType::StartGroup,
        WireType::EndGroup => prost::encoding::WireType::EndGroup,
        WireType::ThirtyTwoBit => prost::encoding::WireType::ThirtyTwoBit,
    };
    let mut rest = buf;
    match prost::encoding::skip_field(kind, tag, &mut rest, Default::default()) {
        Ok(()) => Ok(rest),
        Err(e) => Err(e),
    }
}

/// Reads `bytes` as text, by `core::str::from_utf8`.
///
/// Trusted: the call succeeds exactly on well-formed UTF-8, and the text it
/// returns is made of the characters that the bytes encode.
#[verifier::external_body]
fn str_from_utf8<'a>(bytes: &'a [u8]) -> (r: Option<&'a str>)
    ensures
        r is Some <==> valid_utf8(bytes@),
        r matches Some(text) ==> text@ == decode_utf8(bytes@),
{
    match core::str::from_utf8(bytes) {
        Ok(text) => Some(text),
        Err(_) => None,
    }
}

/// Passes over the payload of a field that a message does not know, and
/// hands back what follows the payload.
pub fn skip_unknown_field<'a>(wire_type: WireType, tag: u32, buf: &'a [u8]) -> (r: Result<
    &'a [u8],
    MessageDecodeError,
>)
    ensures
        match skipped_len(wire_type, tag, buf@) {
            Some(used) => r matches Ok(rest) && used <= buf@.len() && rest@ == buf@.skip(
                used as int,
            ),
            None => r is Err,
        },
{
    match skip_field(wire_type, tag, buf) {
        Ok(rest) => Ok(rest),
        Err(_) => Err(MessageDecodeError),
    }
}

/// The text that the payload of a string field holds, if it is well-formed
/// UTF-8.
pub open spec fn read_text(payload: Seq<u8>) -> Option<Seq<char>> {
    if valid_utf8(payload) {
        Some(decode_utf8(payload))
    } else {
        None
    }
}

/// Reads the payload of a string field as text.
pub fn decode_text(payload: &[u8]) -> (r: Result<String, MessageDecodeError>)
    ensures
        match read_text(payload@) {
            Some(text) => r matches Ok(read) && read@ == text,
            None => r is Err,
        },
{
    match str_from_utf8(payload) {
        Some(text) => Ok(text.to_owned()),
        None => Err(MessageDecodeError),
    }
}

} // verus!

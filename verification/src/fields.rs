//! Messages whose fields are all signed 32-bit integers, numbered from 1:
//! how such a message is written field by field, and how its bytes are merged
//! into the values it holds.

use crate::wire::{
    decode_key, encode_key, int32_as_varint, int32_from_varint, int32_to_varint, key_bytes,
    lemma_int32_round_trip, lemma_key_round_trip, lemma_read_key_bounds,
    lemma_read_varint_bounds, lemma_varint_round_trip, put_varint, read_key, read_varint,
    skip_unknown_field, skipped_len, take_varint, varint_bytes, varint_to_int32,
    MessageDecodeError, WireType, MAX_TAG, MIN_TAG,
};
use vstd::prelude::*;

verus! {

/// The bytes of an int32 field that is present: its key, then its varint.
pub open spec fn int32_field_present(tag: u32, value: i32) -> Seq<u8> {
    key_bytes(tag, WireType::Varint) + varint_bytes(int32_to_varint(value))
}

/// The bytes of an int32 field: nothing where the value is 0, which is what
/// an absent field stands for.
pub open spec fn int32_field_bytes(tag: u32, value: i32) -> Seq<u8> {
    if value == 0 {
        Seq::empty()
    } else {
        int32_field_present(tag, value)
    }
}

/// `fields` with the field of number `tag` set to `value`.
pub open spec fn with_field(fields: (i32, i32), tag: u32, value: i32) -> (i32, i32) {
    if tag == 1 {
        (value, fields.1)
    } else {
        (fields.0, value)
    }
}

/// Merges the one field at the front of `bytes` into `fields`, for a message
/// whose int32 fields are numbered 1 to `known`, and says how many bytes the
/// field takes.
///
/// A known field must be a varint, and its value replaces the one held. Any
/// other field is passed over.
pub open spec fn merge_int32_field(known: u32, fields: (i32, i32), bytes: Seq<u8>) -> Option<
    ((i32, i32), nat),
> {
    match read_key(bytes) {
        None => None,
        Some((tag, wire_type, key_len)) => {
            let body = bytes.skip(key_len as int);
            if 1 <= tag <= known {
                if wire_type != WireType::Varint {
                    None
                } else {
                    match read_varint(body) {
                        None => None,
                        Some((value, used)) => Some(
                            (with_field(fields, tag, varint_to_int32(value)), key_len + used),
                        ),
                    }
                }
            } else {
                match skipped_len(wire_type, tag, body) {
                    None => None,
                    Some(used) => Some((fields, key_len + used)),
                }
            }
        },
    }
}

/// Merges all of `bytes`, field after field, into `fields`. The bytes must be
/// made of whole fields.
pub open spec fn merge_int32_fields(known: u32, fields: (i32, i32), bytes: Seq<u8>) -> Option<
    (i32, i32),
>
    decreases bytes.len(),
{
    if bytes.len() == 0 {
        Some(fields)
    } else {
        match merge_int32_field(known, fields, bytes) {
            Some((merged, used)) => {
                if 0 < used <= bytes.len() {
                    merge_int32_fields(known, merged, bytes.skip(used as int))
                } else {
                    None
                }
            },
            None => None,
        }
    }
}

/// Merging a written field, followed by anything, sets that field and goes on
/// with what follows.
pub proof fn lemma_merge_int32_field_written(
    known: u32,
    fields: (i32, i32),
    tag: u32,
    value: i32,
    rest: Seq<u8>,
)
    requires
        1 <= tag <= known <= 2,
    ensures
        merge_int32_fields(known, fields, int32_field_present(tag, value) + rest)
            == merge_int32_fields(known, with_field(fields, tag, value), rest),
        merge_int32_fields(known, fields, int32_field_bytes(tag, value) + rest)
            == merge_int32_fields(
            known,
            if value == 0 {
                fields
            } else {
                with_field(fields, tag, value)
            },
            rest,
        ),
{
    let key = key_bytes(tag, WireType::Varint);
    let number = varint_bytes(int32_to_varint(value));
    let bytes = int32_field_present(tag, value) + rest;
    assert(bytes =~= key + (number + rest));
    lemma_key_round_trip(tag, WireType::Varint, number + rest);
    lemma_int32_round_trip(value);
    lemma_varint_round_trip(int32_to_varint(value) as u64, rest);
    assert(bytes.skip(key.len() as int) =~= number + rest);
    assert(bytes.skip((key.len() + number.len()) as int) =~= rest);
    assert(merge_int32_field(known, fields, bytes) == Some(
        (with_field(fields, tag, value), key.len() + number.len()),
    ));
    assert(Seq::<u8>::empty() + rest =~= rest);
}

/// Appends the int32 field of number `tag` to `buf`, unless `value` is 0.
pub fn encode_int32_field(tag: u32, value: i32, buf: &mut Vec<u8>)
    requires
        MIN_TAG <= tag <= MAX_TAG,
    ensures
        final(buf)@ == old(buf)@ + int32_field_bytes(tag, value),
{
    if value != 0 {
        encode_key(tag, WireType::Varint, buf);
        put_varint(int32_as_varint(value), buf);
        assert(buf@ =~= old(buf)@ + int32_field_bytes(tag, value));
    } else {
        assert(buf@ =~= old(buf)@ + int32_field_bytes(tag, value));
    }
}

/// Merges the fields that `buf` holds into `fields`, for a message whose
/// int32 fields are numbered 1 to `known`.
pub fn decode_int32_fields(known: u32, fields: (i32, i32), buf: &[u8]) -> (r: Result<
    (i32, i32),
    MessageDecodeError,
>)
    requires
        1 <= known <= 2,
    ensures
        match merge_int32_fields(known, fields, buf@) {
            Some(merged) => r == Ok::<(i32, i32), MessageDecodeError>(merged),
            None => r is Err,
        },
{
    let mut merged = fields;
    let mut rest = buf;
    while rest.len() > 0
        invariant
            1 <= known <= 2,
            merge_int32_fields(known, merged, rest@) == merge_int32_fields(known, fields, buf@),
        decreases rest@.len(),
    {
        proof {
            lemma_read_key_bounds(rest@);
        }
        let (tag, wire_type, body) = match decode_key(rest) {
            Ok(key) => key,
            Err(e) => {
                return Err(e);
            },
        };
        proof {
            lemma_read_varint_bounds(body@);
        }
        let ghost key_len = (rest@.len() - body@.len()) as nat;
        if 1 <= tag && tag <= known {
            match wire_type {
                WireType::Varint => {},
                _ => {
                    return Err(MessageDecodeError);
                },
            }
            match take_varint(body) {
                Err(e) => {
                    return Err(e);
                },
                Ok((value, after)) => {
                    let number = int32_from_varint(value);
                    assert(after@ =~= rest@.skip((rest@.len() - after@.len()) as int));
                    if tag == 1 {
                        merged = (number, merged.1);
                    } else {
                        merged = (merged.0, number);
                    }
                    rest = after;
                },
            }
        } else {
            match skip_unknown_field(wire_type, tag, body) {
                Err(e) => {
                    return Err(e);
                },
                Ok(after) => {
                    assert(after@ =~= rest@.skip((rest@.len() - after@.len()) as int));
                    rest = after;
                },
            }
        }
    }
    Ok(merged)
}

} // verus!

//! The messages of the game and of the addition service, each with its
//! layout on the wire.
//!
//! | message        | field 1                    | field 2                    |
//! |----------------|----------------------------|----------------------------|
//! | `MathProblem`  | `a`, int32                 | `b`, int32                 |
//! | `MathSolution` | `answer`, int32            |                            |
//! | `MathResponse` | `congratulations`, string  | `new_problem`, message     |
//! | `AddRequest`   | `a`, int32                 | `b`, int32                 |
//! | `AddResponse`  | `result`, int32            |                            |
//!
//! The two fields of `MathResponse` exclude each other. A field that is
//! absent from the wire leaves the value 0. A field that a message does not
//! know is passed over. Where a field comes more than once, the last one
//! counts.

pub mod math_response;

use crate::fields::{
    decode_int32_fields, encode_int32_field, int32_field_bytes, lemma_merge_int32_field_written,
    merge_int32_fields,
};
use crate::proto::math_response::{ResponseType, ResponseTypeView};
use crate::wire::{
    decode_delimited, decode_key, decode_text, delimited_bytes, encode_delimited, encode_key,
    int32_to_varint, key_bytes, lemma_delimited_round_trip, lemma_int32_round_trip,
    lemma_key_round_trip, lemma_read_key_bounds, lemma_read_varint_bounds,
    lemma_varint_round_trip, read_delimited, read_key, read_text, skip_unknown_field,
    skipped_len, varint_bytes, MessageDecodeError, WireType,
};
use vstd::prelude::*;
use vstd::utf8::{encode_utf8, encode_utf8_decode_utf8, encode_utf8_valid_utf8};

verus! {

/// An arithmetic challenge: the two numbers to add.
#[derive(Clone, Copy, Debug, PartialEq, Eq, Structural)]
pub struct MathProblem {
    pub a: i32,
    pub b: i32,
}

/// An answer to a challenge.
#[derive(Clone, Copy, Debug, PartialEq, Eq, Structural)]
pub struct MathSolution {
    pub answer: i32,
}

/// What the addition service is asked: the two numbers to add.
#[derive(Clone, Copy, Debug, PartialEq, Eq, Structural)]
pub struct AddRequest {
    pub a: i32,
    pub b: i32,
}

/// What the addition service replies: the sum.
#[derive(Clone, Copy, Debug, PartialEq, Eq, Structural)]
pub struct AddResponse {
    pub result: i32,
}

/// The reply to an answer: one of the two things a response can carry, or
/// nothing.
#[derive(Clone, Debug, PartialEq, Eq)]
pub struct MathResponse {
    pub response_type: Option<ResponseType>,
}

impl View for MathResponse {
    type V = Option<ResponseTypeView>;

    open spec fn view(&self) -> Option<ResponseTypeView> {
        match self.response_type {
            Some(carried) => Some(carried@),
            None => None,
        }
    }
}

impl MathProblem {
    /// The bytes of the message.
    pub open spec fn wire(self) -> Seq<u8> {
        int32_field_bytes(1, self.a) + int32_field_bytes(2, self.b)
    }

    /// What `bytes` decode to.
    pub open spec fn decoded(bytes: Seq<u8>) -> Result<MathProblem, MessageDecodeError> {
        match merge_int32_fields(2, (0, 0), bytes) {
            Some(fields) => Ok(MathProblem { a: fields.0, b: fields.1 }),
            None => Err(MessageDecodeError),
        }
    }

    /// Writes the message into a fresh buffer.
    pub fn encode_to_vec(&self) -> (r: Vec<u8>)
        ensures
            r@ == self.wire(),
    {
        let mut buf: Vec<u8> = Vec::new();
        encode_int32_field(1, self.a, &mut buf);
        encode_int32_field(2, self.b, &mut buf);
        assert(buf@ =~= self.wire());
        buf
    }

    /// Reads the message that `buf` holds.
    pub fn decode(buf: &[u8]) -> (r: Result<MathProblem, MessageDecodeError>)
        ensures
            r == MathProblem::decoded(buf@),
    {
        match decode_int32_fields(2, (0, 0), buf) {
            Ok(fields) => Ok(MathProblem { a: fields.0, b: fields.1 }),
            Err(e) => Err(e),
        }
    }
}

impl Default for MathProblem {
    fn default() -> (r: MathProblem)
        ensures
            r == (MathProblem { a: 0, b: 0 }),
    {
        MathProblem { a: 0, b: 0 }
    }
}

impl MathSolution {
    /// The bytes of the message.
    pub open spec fn wire(self) -> Seq<u8> {
        int32_field_bytes(1, self.answer)
    }

    /// What `bytes` decode to.
    pub open spec fn decoded(bytes: Seq<u8>) -> Result<MathSolution, MessageDecodeError> {
        match merge_int32_fields(1, (0, 0), bytes) {
            Some(fields) => Ok(MathSolution { answer: fields.0 }),
            None => Err(MessageDecodeError),
        }
    }

    /// Writes the message into a fresh buffer.
    pub fn encode_to_vec(&self) -> (r: Vec<u8>)
        ensures
            r@ == self.wire(),
    {
        let mut buf: Vec<u8> = Vec::new();
        encode_int32_field(1, self.answer, &mut buf);
        assert(buf@ =~= self.wire());
        buf
    }

    /// Reads the message that `buf` holds.
    pub fn decode(buf: &[u8]) -> (r: Result<MathSolution, MessageDecodeError>)
        ensures
            r == MathSolution::decoded(buf@),
    {
        match decode_int32_fields(1, (0, 0), buf) {
            Ok(fields) => Ok(MathSolution { answer: fields.0 }),
            Err(e) => Err(e),
        }
    }
}

impl Default for MathSolution {
    fn default() -> (r: MathSolution)
        ensures
            r == (MathSolution { answer: 0 }),
    {
        MathSolution { answer: 0 }
    }
}

impl AddRequest {
    /// The bytes of the message.
    pub open spec fn wire(self) -> Seq<u8> {
        int32_field_bytes(1, self.a) + int32_field_bytes(2, self.b)
    }

    /// What `bytes` decode to.
    pub open spec fn decoded(bytes: Seq<u8>) -> Result<AddRequest, MessageDecodeError> {
        match merge_int32_fields(2, (0, 0), bytes) {
            Some(fields) => Ok(AddRequest { a: fields.0, b: fields.1 }),
            None => Err(MessageDecodeError),
        }
    }

    /// Writes the message into a fresh buffer.
    pub fn encode_to_vec(&self) -> (r: Vec<u8>)
        ensures
            r@ == self.wire(),
    {
        let mut buf: Vec<u8> = Vec::new();
        encode_int32_field(1, self.a, &mut buf);
        encode_int32_field(2, self.b, &mut buf);
        assert(buf@ =~= self.wire());
        buf
    }

    /// Reads the message that `buf` holds.
    pub fn decode(buf: &[u8]) -> (r: Result<AddRequest, MessageDecodeError>)
        ensures
            r == AddRequest::decoded(buf@),
    {
        match decode_int32_fields(2, (0, 0), buf) {
            Ok(fields) => Ok(AddRequest { a: fields.0, b: fields.1 }),
            Err(e) => Err(e),
        }
    }
}

impl Default for AddRequest {
    fn default() -> (r: AddRequest)
        ensures
            r == (AddRequest { a: 0, b: 0 }),
    {
        AddRequest { a: 0, b: 0 }
    }
}

impl AddResponse {
    /// The bytes of the message.
    pub open spec fn wire(self) -> Seq<u8> {
        int32_field_bytes(1, self.result)
    }

    /// What `bytes` decode to.
    pub open spec fn decoded(bytes: Seq<u8>) -> Result<AddResponse, MessageDecodeError> {
        match merge_int32_fields(1, (0, 0), bytes) {
            Some(fields) => Ok(AddResponse { result: fields.0 }),
            None => Err(MessageDecodeError),
        }
    }

    /// Writes the message into a fresh buffer.
    pub fn encode_to_vec(&self) -> (r: Vec<u8>)
        ensures
            r@ == self.wire(),
    {
        let mut buf: Vec<u8> = Vec::new();
        encode_int32_field(1, self.result, &mut buf);
        assert(buf@ =~= self.wire());
        buf
    }

    /// Reads the message that `buf` holds.
    pub fn decode(buf: &[u8]) -> (r: Result<AddResponse, MessageDecodeError>)
        ensures
            r == AddResponse::decoded(buf@),
    {
        match decode_int32_fields(1, (0, 0), buf) {
            Ok(fields) => Ok(AddResponse { result: fields.0 }),
            Err(e) => Err(e),
        }
    }
}

impl Default for AddResponse {
    fn default() -> (r: AddResponse)
        ensures
            r == (AddResponse { result: 0 }),
    {
        AddResponse { result: 0 }
    }
}

/// Merging the bytes of two written fields gives the two values.
pub proof fn lemma_pair_round_trip(a: i32, b: i32)
    ensures
        merge_int32_fields(2, (0, 0), int32_field_bytes(1, a) + int32_field_bytes(2, b)) == Some(
            (a, b),
        ),
{
    let second = int32_field_bytes(2, b);
    lemma_merge_int32_field_written(2, (0, 0), 1, a, second);
    lemma_merge_int32_field_written(2, (a, 0), 2, b, Seq::empty());
    assert(second + Seq::<u8>::empty() =~= second);
}

/// Merging the bytes of one written field gives its value.
pub proof fn lemma_single_round_trip(value: i32)
    ensures
        merge_int32_fields(1, (0, 0), int32_field_bytes(1, value)) == Some((value, 0i32)),
{
    let only = int32_field_bytes(1, value);
    lemma_merge_int32_field_written(1, (0, 0), 1, value, Seq::empty());
    assert(only + Seq::<u8>::empty() =~= only);
}

/// Round trip: a problem that is encoded and then decoded comes back
/// unchanged.
pub proof fn lemma_problem_round_trip(problem: MathProblem)
    ensures
        MathProblem::decoded(problem.wire()) == Ok::<MathProblem, MessageDecodeError>(problem),
{
    lemma_pair_round_trip(problem.a, problem.b);
}

/// Round trip: a solution that is encoded and then decoded comes back
/// unchanged.
pub proof fn lemma_solution_round_trip(solution: MathSolution)
    ensures
        MathSolution::decoded(solution.wire()) == Ok::<MathSolution, MessageDecodeError>(solution),
{
    lemma_single_round_trip(solution.answer);
}

/// Round trip: a request for a sum that is encoded and then decoded comes
/// back unchanged.
pub proof fn lemma_add_request_round_trip(request: AddRequest)
    ensures
        AddRequest::decoded(request.wire()) == Ok::<AddRequest, MessageDecodeError>(request),
{
    lemma_pair_round_trip(request.a, request.b);
}

/// Round trip: a sum that is encoded and then decoded comes back unchanged.
pub proof fn lemma_add_response_round_trip(response: AddResponse)
    ensures
        AddResponse::decoded(response.wire()) == Ok::<AddResponse, MessageDecodeError>(response),
{
    lemma_single_round_trip(response.result);
}

impl MathResponse {
    /// The bytes of a response: nothing where it carries nothing, else the
    /// one field it carries, length-delimited.
    pub open spec fn wire(response: Option<ResponseTypeView>) -> Seq<u8> {
        match response {
            None => Seq::empty(),
            Some(ResponseTypeView::Congratulations(text)) => key_bytes(
                1,
                WireType::LengthDelimited,
            ) + delimited_bytes(encode_utf8(text)),
            Some(ResponseTypeView::NewProblem(problem)) => key_bytes(2, WireType::LengthDelimited)
                + delimited_bytes(problem.wire()),
        }
    }

    /// The int32 fields that a `new_problem` field is merged into: those of
    /// the problem carried so far, or zeros.
    pub open spec fn carried_fields(current: Option<ResponseTypeView>) -> (i32, i32) {
        match current {
            Some(ResponseTypeView::NewProblem(problem)) => (problem.a, problem.b),
            _ => (0, 0),
        }
    }

    /// Merges the one field at the front of `bytes` into `current`, and says
    /// how many bytes the field takes.
    ///
    /// Fields 1 and 2 must be length-delimited. Field 1 must hold well-formed
    /// UTF-8, which replaces what was carried. Field 2 must hold the fields of
    /// a problem, which are merged into the problem carried so far, or into a
    /// problem of zeros where a text or nothing was carried. Any other field
    /// is passed over.
    pub open spec fn merge_field(current: Option<ResponseTypeView>, bytes: Seq<u8>) -> Option<
        (Option<ResponseTypeView>, nat),
    > {
        match read_key(bytes) {
            None => None,
            Some((tag, wire_type, key_len)) => {
                let body = bytes.skip(key_len as int);
                if tag == 1 || tag == 2 {
                    if wire_type != WireType::LengthDelimited {
                        None
                    } else {
                        match read_delimited(body) {
                            None => None,
                            Some((payload, used)) => {
                                if tag == 1 {
                                    match read_text(payload) {
                                        Some(text) => Some(
                                            (
                                                Some(ResponseTypeView::Congratulations(text)),
                                                key_len + used,
                                            ),
                                        ),
                                        None => None,
                                    }
                                } else {
                                    match merge_int32_fields(
                                        2,
                                        Self::carried_fields(current),
                                        payload,
                                    ) {
                                        Some(fields) => Some(
                                            (
                                                Some(
                                                    ResponseTypeView::NewProblem(
                                                        MathProblem { a: fields.0, b: fields.1 },
                                                    ),
                                                ),
                                                key_len + used,
                                            ),
                                        ),
                                        None => None,
                                    }
                                }
                            },
                        }
                    }
                } else {
                    match skipped_len(wire_type, tag, body) {
                        None => None,
                        Some(used) => Some((current, key_len + used)),
                    }
                }
            },
        }
    }

    /// Merges all of `bytes`, field after field, into `current`. The bytes
    /// must be made of whole fields.
    pub open spec fn merged(current: Option<ResponseTypeView>, bytes: Seq<u8>) -> Option<
        Option<ResponseTypeView>,
    >
        decreases bytes.len(),
    {
        if bytes.len() == 0 {
            Some(current)
        } else {
            match Self::merge_field(current, bytes) {
                Some((next, used)) => {
                    if 0 < used <= bytes.len() {
                        Self::merged(next, bytes.skip(used as int))
                    } else {
                        None
                    }
                },
                None => None,
            }
        }
    }

    /// What `bytes` decode to. Bytes that hold neither field decode to a
    /// response that carries nothing.
    pub open spec fn decoded(bytes: Seq<u8>) -> Result<
        Option<ResponseTypeView>,
        MessageDecodeError,
    > {
        match Self::merged(None, bytes) {
            Some(response) => Ok(response),
            None => Err(MessageDecodeError),
        }
    }

    /// Writes the message into a fresh buffer.
    pub fn encode_to_vec(&self) -> (r: Vec<u8>)
        ensures
            r@ == MathResponse::wire(self@),
    {
        let mut buf: Vec<u8> = Vec::new();
        match &self.response_type {
            None => {},
            Some(ResponseType::Congratulations(text)) => {
                encode_key(1, WireType::LengthDelimited, &mut buf);
                encode_delimited(text.as_str().as_bytes(), &mut buf);
            },
            Some(ResponseType::NewProblem(problem)) => {
                let payload = problem.encode_to_vec();
                encode_key(2, WireType::LengthDelimited, &mut buf);
                encode_delimited(payload.as_slice(), &mut buf);
            },
        }
        assert(buf@ =~= MathResponse::wire(self@));
        buf
    }

    /// Reads the message that `buf` holds.
    pub fn decode(buf: &[u8]) -> (r: Result<MathResponse, MessageDecodeError>)
        ensures
            r is Ok <==> MathResponse::decoded(buf@) is Ok,
            r matches Ok(response) ==> MathResponse::decoded(buf@) == Ok::<
                Option<ResponseTypeView>,
                MessageDecodeError,
            >(response@),
    {
        let mut current = MathResponse { response_type: None };
        let mut rest = buf;
        while rest.len() > 0
            invariant
                MathResponse::merged(current@, rest@) == MathResponse::merged(None, buf@),
            decreases rest@.len(),
        {
            proof {
                lemma_read_key_bounds(rest@);
            }
            let (tag, wire_type, body) = match decode_key(rest) {
                Ok(key) => key,
                Err(e) => {
                    return Err(e);
                },
            };
            proof {
                lemma_read_varint_bounds(body@);
            }
            if tag == 1 || tag == 2 {
                match wire_type {
                    WireType::LengthDelimited => {},
                    _ => {
                        return Err(MessageDecodeError);
                    },
                }
                let (payload, after) = match decode_delimited(body) {
                    Ok(parts) => parts,
                    Err(e) => {
                        return Err(e);
                    },
                };
                assert(after@ =~= rest@.skip((rest@.len() - after@.len()) as int));
                if tag == 1 {
                    match decode_text(payload) {
                        Err(e) => {
                            return Err(e);
                        },
                        Ok(text) => {
                            current = MathResponse {
                                response_type: Some(ResponseType::Congratulations(text)),
                            };
                        },
                    }
                } else {
                    let start = match &current.response_type {
                        Some(ResponseType::NewProblem(problem)) => (problem.a, problem.b),
                        _ => (0, 0),
                    };
                    match decode_int32_fields(2, start, payload) {
                        Err(e) => {
                            return Err(e);
                        },
                        Ok(fields) => {
                            current = MathResponse {
                                response_type: Some(
                                    ResponseType::NewProblem(
                                        MathProblem { a: fields.0, b: fields.1 },
                                    ),
                                ),
                            };
                        },
                    }
                }
                rest = after;
            } else {
                match skip_unknown_field(wire_type, tag, body) {
                    Err(e) => {
                        return Err(e);
                    },
                    Ok(after) => {
                        assert(after@ =~= rest@.skip((rest@.len() - after@.len()) as int));
                        rest = after;
                    },
                }
            }
        }
        Ok(current)
    }
}

impl Default for MathResponse {
    fn default() -> (r: MathResponse)
        ensures
            r@ == None::<ResponseTypeView>,
    {
        MathResponse { response_type: None }
    }
}

/// The bytes of a problem are few.
pub proof fn lemma_problem_wire_len(problem: MathProblem)
    ensures
        problem.wire().len() <= 22,
{
    lemma_int32_round_trip(problem.a);
    lemma_int32_round_trip(problem.b);
    lemma_varint_round_trip(int32_to_varint(problem.a) as u64, Seq::empty());
    lemma_varint_round_trip(int32_to_varint(problem.b) as u64, Seq::empty());
    lemma_varint_round_trip(8, Seq::empty());
    lemma_varint_round_trip(16, Seq::empty());
    reveal_with_fuel(varint_bytes, 2);
}

/// Round trip: a response that is encoded and then decoded comes back
/// unchanged, whether it carries a text, a problem or nothing. The text must
/// be one whose length in bytes a machine can hold.
pub proof fn lemma_response_round_trip(response: Option<ResponseTypeView>)
    requires
        response matches Some(ResponseTypeView::Congratulations(text)) ==> encode_utf8(text).len()
            <= u64::MAX,
    ensures
        MathResponse::decoded(MathResponse::wire(response)) == Ok::<
            Option<ResponseTypeView>,
            MessageDecodeError,
        >(response),
{
    let bytes = MathResponse::wire(response);
    match response {
        None => {
            assert(bytes.len() == 0);
        },
        Some(ResponseTypeView::Congratulations(text)) => {
            let key = key_bytes(1, WireType::LengthDelimited);
            let payload = encode_utf8(text);
            lemma_key_round_trip(1, WireType::LengthDelimited, delimited_bytes(payload));
            lemma_delimited_round_trip(payload, Seq::empty());
            encode_utf8_valid_utf8(text);
            encode_utf8_decode_utf8(text);
            assert(bytes.skip(key.len() as int) =~= delimited_bytes(payload) + Seq::<u8>::empty());
            assert(bytes.skip(bytes.len() as int).len() == 0);
            assert(MathResponse::merge_field(None, bytes) == Some(
                (response, (key.len() + delimited_bytes(payload).len()) as nat),
            ));
            assert(bytes.len() == key.len() + delimited_bytes(payload).len());
            assert(MathResponse::merged(response, bytes.skip(bytes.len() as int)) == Some(
                response,
            ));
        },
        Some(ResponseTypeView::NewProblem(problem)) => {
            let key = key_bytes(2, WireType::LengthDelimited);
            let payload = problem.wire();
            lemma_problem_wire_len(problem);
            lemma_key_round_trip(2, WireType::LengthDelimited, delimited_bytes(payload));
            lemma_delimited_round_trip(payload, Seq::empty());
            lemma_pair_round_trip(problem.a, problem.b);
            assert(bytes.skip(key.len() as int) =~= delimited_bytes(payload) + Seq::<u8>::empty());
            assert(bytes.skip(bytes.len() as int).len() == 0);
            assert(MathResponse::merge_field(None, bytes) == Some(
                (response, (key.len() + delimited_bytes(payload).len()) as nat),
            ));
            assert(bytes.len() == key.len() + delimited_bytes(payload).len());
            assert(MathResponse::merged(response, bytes.skip(bytes.len() as int)) == Some(
                response,
            ));
        },
    }
}

/// Decoding is a function of the bytes: two buffers that hold the same
/// bytes decode to equal values, or both fail.
pub proof fn lemma_decoding_is_a_function(first: Seq<u8>, second: Seq<u8>)
    requires
        first =~= second,
    ensures
        MathProblem::decoded(first) == MathProblem::decoded(second),
        MathSolution::decoded(first) == MathSolution::decoded(second),
        MathResponse::decoded(first) == MathResponse::decoded(second),
        AddRequest::decoded(first) == AddRequest::decoded(second),
        AddResponse::decoded(first) == AddResponse::decoded(second),
{
}

} // verus!

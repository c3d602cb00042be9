use wscat_rust::proto::math_response::ResponseType;
use wscat_rust::proto::{AddRequest, AddResponse, MathProblem, MathResponse, MathSolution};
use wscat_rust::wire::MessageDecodeError;

fn congratulations(text: &str) -> MathResponse {
    MathResponse { response_type: Some(ResponseType::Congratulations(text.to_string())) }
}

fn new_problem(a: i32, b: i32) -> MathResponse {
    MathResponse { response_type: Some(ResponseType::NewProblem(MathProblem { a, b })) }
}

#[test]
fn problem_bytes() {
    assert_eq!(MathProblem { a: 7, b: 5 }.encode_to_vec(), vec![0x08, 0x07, 0x10, 0x05]);
    assert_eq!(MathProblem { a: 19, b: 1 }.encode_to_vec(), vec![0x08, 0x13, 0x10, 0x01]);
    assert_eq!(MathProblem { a: 0, b: 5 }.encode_to_vec(), vec![0x10, 0x05]);
    assert_eq!(MathProblem { a: 7, b: 0 }.encode_to_vec(), vec![0x08, 0x07]);
    assert_eq!(MathProblem { a: 0, b: 0 }.encode_to_vec(), Vec::<u8>::new());
    assert_eq!(MathProblem { a: 300, b: 128 }.encode_to_vec(), vec![0x08, 0xac, 0x02, 0x10, 0x80, 0x01]);
}

#[test]
fn problem_round_trip_over_the_whole_range() {
    for a in 1..=19 {
        for b in 1..=19 {
            let problem = MathProblem { a, b };
            let bytes = problem.encode_to_vec();
            assert_eq!(bytes.len(), 4);
            assert_eq!(MathProblem::decode(&bytes), Ok(problem));
        }
    }
}

#[test]
fn problem_round_trip_outside_the_range() {
    let values = [0, 1, -1, 127, 128, 16_383, 16_384, -300, i32::MAX, i32::MIN];
    for a in values {
        for b in values {
            let problem = MathProblem { a, b };
            assert_eq!(MathProblem::decode(&problem.encode_to_vec()), Ok(problem));
        }
    }
}

#[test]
fn problem_from_no_bytes_is_all_zero() {
    assert_eq!(MathProblem::decode(&[]), Ok(MathProblem { a: 0, b: 0 }));
    assert_eq!(MathProblem::default(), MathProblem { a: 0, b: 0 });
}

#[test]
fn problem_fields_may_come_in_any_order() {
    assert_eq!(MathProblem::decode(&[0x10, 0x05, 0x08, 0x07]), Ok(MathProblem { a: 7, b: 5 }));
}

#[test]
fn problem_field_that_comes_twice_counts_the_last_time() {
    assert_eq!(MathProblem::decode(&[0x08, 0x01, 0x08, 0x02]), Ok(MathProblem { a: 2, b: 0 }));
    assert_eq!(
        MathProblem::decode(&[0x08, 0x01, 0x10, 0x09, 0x08, 0x00]),
        Ok(MathProblem { a: 0, b: 9 })
    );
}

#[test]
fn problem_that_breaks_off_is_refused() {
    assert_eq!(MathProblem::decode(&[0x08]), Err(MessageDecodeError));
    assert_eq!(MathProblem::decode(&[0x08, 0x07, 0x10]), Err(MessageDecodeError));
    assert_eq!(MathProblem::decode(&[0x08, 0x80]), Err(MessageDecodeError));
    assert_eq!(MathProblem::decode(&[0x80]), Err(MessageDecodeError));
}

#[test]
fn problem_field_of_the_wrong_wire_type_is_refused() {
    assert_eq!(MathProblem::decode(&[0x0a, 0x00]), Err(MessageDecodeError));
    assert_eq!(MathProblem::decode(&[0x0d, 1, 2, 3, 4]), Err(MessageDecodeError));
    assert_eq!(MathProblem::decode(&[0x11, 1, 2, 3, 4, 5, 6, 7, 8]), Err(MessageDecodeError));
    assert_eq!(MathProblem::decode(&[0x12, 0x01, 0x05]), Err(MessageDecodeError));
}

#[test]
fn varint_of_ten_bytes_may_end_in_one_only() {
    let mut bytes = vec![0x08];
    bytes.extend_from_slice(&[0xff; 9]);
    bytes.push(0x01);
    assert_eq!(MathProblem::decode(&bytes), Ok(MathProblem { a: -1, b: 0 }));
    let last = bytes.len() - 1;
    bytes[last] = 0x00;
    assert_eq!(MathProblem::decode(&bytes), Ok(MathProblem { a: -1, b: 0 }));
    bytes[last] = 0x02;
    assert_eq!(MathProblem::decode(&bytes), Err(MessageDecodeError));
    bytes[last] = 0x7f;
    assert_eq!(MathProblem::decode(&bytes), Err(MessageDecodeError));
}

#[test]
fn varint_of_eleven_bytes_is_refused() {
    let mut bytes = vec![0x08];
    bytes.extend_from_slice(&[0x80; 10]);
    bytes.push(0x00);
    assert_eq!(MathProblem::decode(&bytes), Err(MessageDecodeError));
    let mut short = vec![0x08];
    short.extend_from_slice(&[0x80; 10]);
    assert_eq!(MathProblem::decode(&short), Err(MessageDecodeError));
}

#[test]
fn varint_with_idle_high_groups_is_read() {
    assert_eq!(MathProblem::decode(&[0x08, 0x85, 0x00]), Ok(MathProblem { a: 5, b: 0 }));
    assert_eq!(
        MathProblem::decode(&[0x08, 0x85, 0x80, 0x80, 0x80, 0x80, 0x80, 0x80, 0x80, 0x80, 0x00]),
        Ok(MathProblem { a: 5, b: 0 })
    );
}

#[test]
fn varint_above_32_bits_keeps_its_low_half() {
    assert_eq!(
        MathProblem::decode(&[0x08, 0x85, 0x80, 0x80, 0x80, 0x10]),
        Ok(MathProblem { a: 5, b: 0 })
    );
    assert_eq!(
        MathProblem::decode(&[0x08, 0x80, 0x80, 0x80, 0x80, 0x08]),
        Ok(MathProblem { a: i32::MIN, b: 0 })
    );
}

#[test]
fn solution_bytes() {
    assert_eq!(MathSolution { answer: 12 }.encode_to_vec(), vec![0x08, 0x0c]);
    assert_eq!(MathSolution { answer: 38 }.encode_to_vec(), vec![0x08, 0x26]);
    assert_eq!(MathSolution { answer: 0 }.encode_to_vec(), Vec::<u8>::new());
    assert_eq!(
        MathSolution { answer: -1 }.encode_to_vec(),
        vec![0x08, 0xff, 0xff, 0xff, 0xff, 0xff, 0xff, 0xff, 0xff, 0xff, 0x01]
    );
    assert_eq!(MathSolution::default(), MathSolution { answer: 0 });
}

#[test]
fn solution_round_trip() {
    for answer in [0, 1, 2, 12, 38, 127, 128, -1, -38, i32::MAX, i32::MIN] {
        let solution = MathSolution { answer };
        assert_eq!(MathSolution::decode(&solution.encode_to_vec()), Ok(solution));
    }
}

#[test]
fn solution_passes_over_fields_it_does_not_know() {
    assert_eq!(MathSolution::decode(&[0x08, 0x0c, 0x18, 0x01]), Ok(MathSolution { answer: 12 }));
    assert_eq!(MathSolution::decode(&[0x10, 0x05, 0x08, 0x0c]), Ok(MathSolution { answer: 12 }));
    assert_eq!(
        MathSolution::decode(&[0x1a, 0x02, 0xaa, 0xbb, 0x08, 0x01]),
        Ok(MathSolution { answer: 1 })
    );
    assert_eq!(
        MathSolution::decode(&[0x1d, 1, 2, 3, 4, 0x08, 0x02]),
        Ok(MathSolution { answer: 2 })
    );
    assert_eq!(
        MathSolution::decode(&[0x19, 1, 2, 3, 4, 5, 6, 7, 8, 0x08, 0x03]),
        Ok(MathSolution { answer: 3 })
    );
    assert_eq!(
        MathSolution::decode(&[0x1b, 0x08, 0x01, 0x1c, 0x08, 0x04]),
        Ok(MathSolution { answer: 4 })
    );
}

#[test]
fn solution_with_a_broken_unknown_field_is_refused() {
    assert_eq!(MathSolution::decode(&[0x18]), Err(MessageDecodeError));
    assert_eq!(MathSolution::decode(&[0x1a, 0x05, 0xaa]), Err(MessageDecodeError));
    assert_eq!(MathSolution::decode(&[0x1d, 1, 2]), Err(MessageDecodeError));
    assert_eq!(MathSolution::decode(&[0x19, 1, 2, 3, 4]), Err(MessageDecodeError));
    assert_eq!(MathSolution::decode(&[0x1b, 0x08, 0x01]), Err(MessageDecodeError));
    assert_eq!(MathSolution::decode(&[0x1b, 0x24]), Err(MessageDecodeError));
    assert_eq!(MathSolution::decode(&[0x1c]), Err(MessageDecodeError));
}

#[test]
fn solution_that_is_cut_short_is_refused() {
    let whole = MathSolution { answer: 300 }.encode_to_vec();
    assert_eq!(whole, vec![0x08, 0xac, 0x02]);
    assert_eq!(MathSolution::decode(&whole[..2]), Err(MessageDecodeError));
    assert_eq!(MathSolution::decode(&whole[..1]), Err(MessageDecodeError));
}

#[test]
fn response_with_congratulations_bytes() {
    let bytes = congratulations("Congratulations! Correct answer!").encode_to_vec();
    let mut expected = vec![0x0a, 0x20];
    expected.extend_from_slice(b"Congratulations! Correct answer!");
    assert_eq!(bytes, expected);
    assert_eq!(congratulations("").encode_to_vec(), vec![0x0a, 0x00]);
    assert_eq!(congratulations("A").encode_to_vec(), vec![0x0a, 0x01, 0x41]);
}

#[test]
fn response_with_new_problem_bytes() {
    assert_eq!(new_problem(3, 4).encode_to_vec(), vec![0x12, 0x04, 0x08, 0x03, 0x10, 0x04]);
    assert_eq!(new_problem(0, 0).encode_to_vec(), vec![0x12, 0x00]);
    assert_eq!(new_problem(0, 9).encode_to_vec(), vec![0x12, 0x02, 0x10, 0x09]);
}

#[test]
fn response_round_trip_of_each_variant() {
    let responses = [
        congratulations("Congratulations! Correct answer!"),
        congratulations(""),
        congratulations("h\u{e9}llo \u{2713} \u{1f600}"),
        new_problem(3, 4),
        new_problem(19, 19),
        new_problem(0, 0),
        new_problem(-1, i32::MIN),
        MathResponse { response_type: None },
    ];
    for response in responses {
        let bytes = response.encode_to_vec();
        assert_eq!(MathResponse::decode(&bytes), Ok(response));
    }
}

#[test]
fn response_round_trip_of_a_long_text() {
    let response = congratulations(&"well done ".repeat(40));
    let bytes = response.encode_to_vec();
    assert_eq!(&bytes[..3], &[0x0a, 0x90, 0x03]);
    assert_eq!(bytes.len(), 403);
    assert_eq!(MathResponse::decode(&bytes), Ok(response));
}

#[test]
fn response_with_neither_field_decodes_to_nothing() {
    assert_eq!(MathResponse::decode(&[]), Ok(MathResponse { response_type: None }));
    assert_eq!(MathResponse::default(), MathResponse { response_type: None });
    assert_eq!(MathResponse { response_type: None }.encode_to_vec(), Vec::<u8>::new());
    assert_eq!(
        MathResponse::decode(&[0x18, 0x01]),
        Ok(MathResponse { response_type: None })
    );
}

#[test]
fn response_text_must_be_utf8() {
    assert_eq!(MathResponse::decode(&[0x0a, 0x01, 0xff]), Err(MessageDecodeError));
    assert_eq!(MathResponse::decode(&[0x0a, 0x02, 0xc3, 0x28]), Err(MessageDecodeError));
    assert_eq!(MathResponse::decode(&[0x0a, 0x01, 0xc3]), Err(MessageDecodeError));
    assert_eq!(MathResponse::decode(&[0x0a, 0x02, 0xc3, 0xa9]), Ok(congratulations("\u{e9}")));
}

#[test]
fn response_field_of_the_wrong_wire_type_is_refused() {
    assert_eq!(MathResponse::decode(&[0x08, 0x01]), Err(MessageDecodeError));
    assert_eq!(MathResponse::decode(&[0x10, 0x01]), Err(MessageDecodeError));
}

#[test]
fn response_payload_must_lie_within_the_frame() {
    assert_eq!(MathResponse::decode(&[0x12, 0x05, 0x08, 0x03]), Err(MessageDecodeError));
    assert_eq!(MathResponse::decode(&[0x0a, 0x20, 0x41]), Err(MessageDecodeError));
    assert_eq!(MathResponse::decode(&[0x12]), Err(MessageDecodeError));
}

#[test]
fn response_problem_must_be_made_of_whole_fields() {
    assert_eq!(MathResponse::decode(&[0x12, 0x01, 0x08, 0x03]), Err(MessageDecodeError));
    assert_eq!(MathResponse::decode(&[0x12, 0x02, 0x0a, 0x00]), Err(MessageDecodeError));
}

#[test]
fn response_problem_passes_over_fields_it_does_not_know() {
    assert_eq!(
        MathResponse::decode(&[0x12, 0x06, 0x08, 0x03, 0x18, 0x63, 0x10, 0x04]),
        Ok(new_problem(3, 4))
    );
}

#[test]
fn response_problems_that_come_twice_are_merged() {
    assert_eq!(
        MathResponse::decode(&[0x12, 0x02, 0x08, 0x03, 0x12, 0x02, 0x10, 0x04]),
        Ok(new_problem(3, 4))
    );
    assert_eq!(
        MathResponse::decode(&[0x12, 0x04, 0x08, 0x03, 0x10, 0x04, 0x12, 0x02, 0x08, 0x09]),
        Ok(new_problem(9, 4))
    );
}

#[test]
fn response_field_that_comes_last_decides_what_is_carried() {
    assert_eq!(
        MathResponse::decode(&[0x0a, 0x01, 0x41, 0x12, 0x02, 0x08, 0x03]),
        Ok(new_problem(3, 0))
    );
    assert_eq!(
        MathResponse::decode(&[0x12, 0x02, 0x08, 0x03, 0x0a, 0x01, 0x41]),
        Ok(congratulations("A"))
    );
    assert_eq!(
        MathResponse::decode(&[0x0a, 0x01, 0x41, 0x0a, 0x01, 0x42]),
        Ok(congratulations("B"))
    );
    assert_eq!(
        MathResponse::decode(&[0x12, 0x02, 0x08, 0x03, 0x0a, 0x00, 0x12, 0x02, 0x10, 0x04]),
        Ok(new_problem(0, 4))
    );
}

#[test]
fn add_request_bytes() {
    assert_eq!(AddRequest { a: 100, b: 50 }.encode_to_vec(), vec![0x08, 0x64, 0x10, 0x32]);
    assert_eq!(AddRequest { a: 0, b: 0 }.encode_to_vec(), Vec::<u8>::new());
    assert_eq!(AddRequest::default(), AddRequest { a: 0, b: 0 });
}

#[test]
fn add_request_round_trip() {
    for (a, b) in [(100, 50), (0, 0), (-1, 1), (i32::MAX, i32::MIN), (1, 0), (0, 1)] {
        let request = AddRequest { a, b };
        assert_eq!(AddRequest::decode(&request.encode_to_vec()), Ok(request));
    }
    assert_eq!(AddRequest::decode(&[0x08]), Err(MessageDecodeError));
}

#[test]
fn add_response_bytes() {
    assert_eq!(AddResponse { result: 150 }.encode_to_vec(), vec![0x08, 0x96, 0x01]);
    assert_eq!(AddResponse { result: 0 }.encode_to_vec(), Vec::<u8>::new());
    assert_eq!(AddResponse::default(), AddResponse { result: 0 });
}

#[test]
fn add_response_round_trip() {
    for result in [150, 0, -150, i32::MAX, i32::MIN] {
        let response = AddResponse { result };
        assert_eq!(AddResponse::decode(&response.encode_to_vec()), Ok(response));
    }
    assert_eq!(AddResponse::decode(&[0x08, 0x96]), Err(MessageDecodeError));
}

#[test]
fn decoding_the_same_bytes_twice_gives_equal_values() {
    let frames: [&[u8]; 6] = [
        &[0x08, 0x07, 0x10, 0x05],
        &[],
        &[0x08],
        &[0x12, 0x04, 0x08, 0x03, 0x10, 0x04],
        &[0x0a, 0x01, 0x41],
        &[0x0a, 0x01, 0xff],
    ];
    for frame in frames {
        let kept = frame.to_vec();
        assert_eq!(MathProblem::decode(frame), MathProblem::decode(frame));
        assert_eq!(MathSolution::decode(frame), MathSolution::decode(frame));
        assert_eq!(MathResponse::decode(frame), MathResponse::decode(frame));
        assert_eq!(AddRequest::decode(frame), AddRequest::decode(frame));
        assert_eq!(AddResponse::decode(frame), AddResponse::decode(frame));
        assert_eq!(frame, &kept[..]);
    }
}

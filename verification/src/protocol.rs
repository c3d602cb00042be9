//! What the two ends of a connection hold for each other: every frame that
//! one end makes, the other end reads as what was meant.

use crate::channel::InboundView;
use crate::client::{
    initial_action, response_action, solution_frame_of, ClientActionView, InputFormatError,
};
use crate::proto::math_response::ResponseTypeView;
use crate::proto::{
    lemma_problem_round_trip, lemma_response_round_trip, lemma_solution_round_trip, MathProblem,
    MathSolution,
};
use crate::server::{reaction, ServerActionView};
use crate::session::{expected_answer, CONGRATULATIONS};
use crate::wire::MessageDecodeError;
use vstd::prelude::*;
use vstd::utf8::{encode_utf8, is_ascii_chars, is_ascii_chars_encode_utf8};

verus! {

/// The closing message is short: its bytes are as many as its characters.
pub proof fn lemma_congratulations_len()
    ensures
        encode_utf8(CONGRATULATIONS@).len() == 32,
{
    reveal_strlit("Congratulations! Correct answer!");
    let text = CONGRATULATIONS@;
    assert(text.len() == 32);
    assert(is_ascii_chars(text));
    is_ascii_chars_encode_utf8(text);
}

/// The frame that opens a game shows the client the problem that the server
/// holds.
pub proof fn lemma_first_frame_is_understood(problem: MathProblem)
    ensures
        initial_action(problem.wire()) == Ok::<ClientActionView, MessageDecodeError>(
            ClientActionView::AskFirst(problem),
        ),
{
    lemma_problem_round_trip(problem);
}

/// The frame that the client makes of a parsed answer is read by the server
/// as that answer.
pub proof fn lemma_answer_frame_is_understood(answer: i32)
    ensures
        solution_frame_of(Some(answer)) matches Ok(frame) && MathSolution::decoded(frame) == Ok::<
            MathSolution,
            MessageDecodeError,
        >(MathSolution { answer }),
        solution_frame_of(None) == Err::<Seq<u8>, InputFormatError>(InputFormatError),
{
    lemma_solution_round_trip(MathSolution { answer });
}

/// The server answers a solution frame with exactly one frame, and the client
/// reads it as what the server decided: the closing message on the right
/// answer, the fresh problem on any other.
pub proof fn lemma_reply_is_understood(problem: MathProblem, answer: i32, fresh: MathProblem)
    ensures
        ({
            let inbound = InboundView::Binary((MathSolution { answer }).wire());
            let (action, next) = reaction(problem, inbound, fresh);
            if answer == expected_answer(problem) {
                &&& next == problem
                &&& action matches ServerActionView::SendAndClose(frame)
                &&& response_action(frame) == Ok::<ClientActionView, MessageDecodeError>(
                    ClientActionView::Congratulate(CONGRATULATIONS@),
                )
            } else {
                &&& next == fresh
                &&& action matches ServerActionView::Send(frame)
                &&& response_action(frame) == Ok::<ClientActionView, MessageDecodeError>(
                    ClientActionView::AskAgain(fresh),
                )
            }
        }),
{
    lemma_solution_round_trip(MathSolution { answer });
    lemma_congratulations_len();
    lemma_response_round_trip(Some(ResponseTypeView::Congratulations(CONGRATULATIONS@)));
    lemma_response_round_trip(Some(ResponseTypeView::NewProblem(fresh)));
}

/// Frames alternate: the server sends a frame exactly when a binary frame
/// arrives that holds a solution, and sends nothing for anything else.
pub proof fn lemma_one_reply_per_solution(
    problem: MathProblem,
    inbound: InboundView,
    fresh: MathProblem,
)
    ensures
        ({
            let action = reaction(problem, inbound, fresh).0;
            (action is Send || action is SendAndClose) <==> (inbound matches InboundView::Binary(
                data,
            ) && MathSolution::decoded(data) is Ok)
        }),
        !(reaction(problem, inbound, fresh).0 is Send || reaction(problem, inbound, fresh).0
            is SendAndClose) ==> reaction(problem, inbound, fresh).1 == problem,
{
}

} // verus!

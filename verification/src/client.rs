//! The client's side of a game: what to make of each frame from the server,
//! and how a line typed by the player becomes the frame that answers.
//!
//! The program that owns the socket and the console hands each thing that
//! arrives to `GameClient::handle_message`, shows what the action says, and
//! sends what `answer_frame` makes of the player's line.

use crate::proto::math_response::{ResponseType, ResponseTypeView};
use crate::proto::{lemma_response_round_trip, MathProblem, MathResponse, MathSolution};
use crate::channel::{Inbound, InboundView};
use crate::wire::MessageDecodeError;
use vstd::prelude::*;

verus! {

/// The failure of a typed line to be a 32-bit integer. Such a line is never
/// sent.
#[derive(Clone, Copy, Debug, PartialEq, Eq, Structural)]
pub struct InputFormatError;

/// Why the client stops without the game being won.
#[derive(Clone, Copy, Debug, PartialEq, Eq, Structural)]
pub enum StopReason {
    /// The first thing to arrive was not a binary frame.
    UnexpectedFirstMessage,
    /// A frame did not decode.
    Malformed,
    /// The server closed the channel.
    ClosedByServer,
    /// The transport failed.
    TransportFailed,
}

/// What the owner of the socket and the console is to do next.
#[derive(Clone, Debug, PartialEq, Eq)]
pub enum ClientAction {
    /// Show the first problem and ask for an answer.
    AskFirst(MathProblem),
    /// Tell the player the answer was wrong, show the new problem and ask
    /// again.
    AskAgain(MathProblem),
    /// Show the closing message. The game is won.
    Congratulate(String),
    /// Tell the player that an empty response came, and wait for the next
    /// frame.
    ReportEmpty,
    /// Wait for the next frame.
    Ignore,
    /// Stop.
    Stop(StopReason),
}

/// A `ClientAction` as a value of specifications.
pub enum ClientActionView {
    AskFirst(MathProblem),
    AskAgain(MathProblem),
    Congratulate(Seq<char>),
    ReportEmpty,
    Ignore,
    Stop(StopReason),
}

impl View for ClientAction {
    type V = ClientActionView;

    open spec fn view(&self) -> ClientActionView {
        match self {
            ClientAction::AskFirst(problem) => ClientActionView::AskFirst(*problem),
            ClientAction::AskAgain(problem) => ClientActionView::AskAgain(*problem),
            ClientAction::Congratulate(message) => ClientActionView::Congratulate(message@),
            ClientAction::ReportEmpty => ClientActionView::ReportEmpty,
            ClientAction::Ignore => ClientActionView::Ignore,
            ClientAction::Stop(reason) => ClientActionView::Stop(*reason),
        }
    }
}

impl ClientActionView {
    /// Whether the client is done after the action.
    pub open spec fn ends_game(self) -> bool {
        self is Congratulate || self is Stop
    }
}

impl ClientAction {
    /// Whether the client is done after the action.
    pub fn ends_game(&self) -> (r: bool)
        ensures
            r == self@.ends_game(),
    {
        match self {
            ClientAction::Congratulate(_) => true,
            ClientAction::Stop(_) => true,
            _ => false,
        }
    }
}

/// What the client makes of the first frame: the problem to show.
pub open spec fn initial_action(data: Seq<u8>) -> Result<ClientActionView, MessageDecodeError> {
    match MathProblem::decoded(data) {
        Ok(problem) => Ok(ClientActionView::AskFirst(problem)),
        Err(e) => Err(e),
    }
}

/// What the client makes of a later frame: the closing message, the next
/// problem, or, where the response carries neither, nothing to show.
pub open spec fn response_action(data: Seq<u8>) -> Result<ClientActionView, MessageDecodeError> {
    match MathResponse::decoded(data) {
        Ok(Some(ResponseTypeView::Congratulations(message))) => Ok(
            ClientActionView::Congratulate(message),
        ),
        Ok(Some(ResponseTypeView::NewProblem(problem))) => Ok(ClientActionView::AskAgain(problem)),
        Ok(None) => Ok(ClientActionView::ReportEmpty),
        Err(e) => Err(e),
    }
}

/// Whether an exec result holds what a result of specifications says.
pub open spec fn action_matches(
    r: Result<ClientAction, MessageDecodeError>,
    expected: Result<ClientActionView, MessageDecodeError>,
) -> bool {
    match expected {
        Ok(view) => r matches Ok(action) && action@ == view,
        Err(e) => r == Err::<ClientAction, MessageDecodeError>(e),
    }
}

/// Reads the frame that opens the game.
pub fn handle_initial_problem(data: &[u8]) -> (r: Result<ClientAction, MessageDecodeError>)
    ensures
        action_matches(r, initial_action(data@)),
{
    match MathProblem::decode(data) {
        Ok(problem) => Ok(ClientAction::AskFirst(problem)),
        Err(e) => Err(e),
    }
}

/// Reads a frame that replies to an answer. A response that carries neither
/// a message nor a problem is no error: there is nothing to show, and the
/// game goes on.
pub fn handle_response(data: &[u8]) -> (r: Result<ClientAction, MessageDecodeError>)
    ensures
        action_matches(r, response_action(data@)),
{
    match MathResponse::decode(data) {
        Err(e) => Err(e),
        Ok(response) => match response.response_type {
            Some(ResponseType::Congratulations(message)) => Ok(
                ClientAction::Congratulate(message),
            ),
            Some(ResponseType::NewProblem(problem)) => Ok(ClientAction::AskAgain(problem)),
            None => Ok(ClientAction::ReportEmpty),
        },
    }
}

/// A frame that decodes to a response with neither field is no error: the
/// client has nothing to show, and a client that is playing goes on playing.
/// The frame of no bytes is such a frame.
pub proof fn lemma_empty_response_goes_on(data: Seq<u8>)
    requires
        MathResponse::decoded(data) == Ok::<Option<ResponseTypeView>, MessageDecodeError>(None),
    ensures
        response_action(data) == Ok::<ClientActionView, MessageDecodeError>(
            ClientActionView::ReportEmpty,
        ),
        client_reaction(ClientPhase::Playing, InboundView::Binary(data)) == (
            ClientActionView::ReportEmpty,
            ClientPhase::Playing,
        ),
        MathResponse::decoded(MathResponse::wire(None)) == Ok::<
            Option<ResponseTypeView>,
            MessageDecodeError,
        >(None),
{
    lemma_response_round_trip(None);
}

/// Where the client stands.
#[derive(Clone, Copy, Debug, PartialEq, Eq, Structural)]
pub enum ClientPhase {
    /// Nothing has arrived yet.
    AwaitingProblem,
    /// A problem was shown; responses are awaited.
    Playing,
    /// The client is done.
    Done,
}

/// What the client does with `inbound` in `phase`, and the phase it is in
/// afterwards.
///
/// The first thing to arrive must be a binary frame that holds a problem.
/// After that a binary frame must hold a response; a close ends the game, and
/// frames of other kinds are ignored. A failure of the transport, or a frame
/// that does not decode, stops the client.
pub open spec fn client_reaction(phase: ClientPhase, inbound: InboundView) -> (
    ClientActionView,
    ClientPhase,
) {
    match inbound {
        InboundView::Failure => (
            ClientActionView::Stop(StopReason::TransportFailed),
            ClientPhase::Done,
        ),
        InboundView::Binary(data) => {
            let made = if phase == ClientPhase::AwaitingProblem {
                initial_action(data)
            } else {
                response_action(data)
            };
            match made {
                Err(_) => (ClientActionView::Stop(StopReason::Malformed), ClientPhase::Done),
                Ok(action) => (
                    action,
                    if action.ends_game() {
                        ClientPhase::Done
                    } else {
                        ClientPhase::Playing
                    },
                ),
            }
        },
        InboundView::Close => {
            if phase == ClientPhase::AwaitingProblem {
                (ClientActionView::Stop(StopReason::UnexpectedFirstMessage), ClientPhase::Done)
            } else {
                (ClientActionView::Stop(StopReason::ClosedByServer), ClientPhase::Done)
            }
        },
        InboundView::Other => {
            if phase == ClientPhase::AwaitingProblem {
                (ClientActionView::Stop(StopReason::UnexpectedFirstMessage), ClientPhase::Done)
            } else {
                (ClientActionView::Ignore, phase)
            }
        },
    }
}

/// The client's side of one game.
pub struct GameClient {
    phase: ClientPhase,
}

impl GameClient {
    /// Where the client stands.
    pub closed spec fn phase(&self) -> ClientPhase {
        self.phase
    }

    /// A client that has seen nothing yet.
    pub fn new() -> (client: GameClient)
        ensures
            client.phase() == ClientPhase::AwaitingProblem,
    {
        GameClient { phase: ClientPhase::AwaitingProblem }
    }

    /// Where the client stands.
    pub fn current_phase(&self) -> (phase: ClientPhase)
        ensures
            phase == self.phase(),
    {
        self.phase
    }

    /// Decides what to do with `inbound`.
    pub fn handle_message(&mut self, inbound: &Inbound) -> (action: ClientAction)
        requires
            old(self).phase() != ClientPhase::Done,
        ensures
            (action@, final(self).phase()) == client_reaction(old(self).phase(), inbound@),
            final(self).phase() == ClientPhase::Done <==> action@.ends_game(),
    {
        let first = match self.phase {
            ClientPhase::AwaitingProblem => true,
            _ => false,
        };
        let action = match inbound {
            Inbound::Failure => ClientAction::Stop(StopReason::TransportFailed),
            Inbound::Binary(data) => {
                let made = if first {
                    handle_initial_problem(data.as_slice())
                } else {
                    handle_response(data.as_slice())
                };
                match made {
                    Ok(action) => action,
                    Err(_) => ClientAction::Stop(StopReason::Malformed),
                }
            },
            Inbound::Close => if first {
                ClientAction::Stop(StopReason::UnexpectedFirstMessage)
            } else {
                ClientAction::Stop(StopReason::ClosedByServer)
            },
            Inbound::Other => if first {
                ClientAction::Stop(StopReason::UnexpectedFirstMessage)
            } else {
                ClientAction::Ignore
            },
        };
        if action.ends_game() {
            self.phase = ClientPhase::Done;
        } else {
            match action {
                ClientAction::Ignore => {},
                _ => {
                    self.phase = ClientPhase::Playing;
                },
            }
        }
        action
    }
}

/// What `str::trim` leaves of a text: the text without the white space at its
/// two ends.
pub uninterp spec fn trimmed(text: Seq<char>) -> Seq<char>;

/// Whether `c` is one of the ten decimal digits.
pub open spec fn is_digit(c: char) -> bool {
    '0' <= c <= '9'
}

/// Whether `digits` holds decimal digits and nothing else.
pub open spec fn all_digits(digits: Seq<char>) -> bool {
    forall|i: int| 0 <= i < digits.len() ==> is_digit(#[trigger] digits[i])
}

/// The number that a run of decimal digits stands for.
pub open spec fn digits_value(digits: Seq<char>) -> nat
    decreases digits.len(),
{
    if digits.len() == 0 {
        0
    } else {
        (digits_value(digits.drop_last()) * 10 + (digits.last() as u32 - '0' as u32)) as nat
    }
}

/// The 32-bit integer that `text` stands for: an optional sign, `+` or `-`,
/// and then one or more decimal digits and nothing else, with a value that
/// fits in 32 bits.
pub open spec fn parsed_int32(text: Seq<char>) -> Option<i32> {
    let signed = text.len() > 0 && (text[0] == '-' || text[0] == '+');
    let digits = if signed {
        text.skip(1)
    } else {
        text
    };
    let value = if signed && text[0] == '-' {
        -(digits_value(digits) as int)
    } else {
        digits_value(digits) as int
    };
    if digits.len() > 0 && all_digits(digits) && i32::MIN <= value <= i32::MAX {
        Some(value as i32)
    } else {
        None
    }
}

/// Strips the white space from both ends of `text`, by `str::trim`.
///
/// Trusted: what is left depends on the text alone.
#[verifier::external_body]
pub(crate) fn trim<'a>(text: &'a str) -> (r: &'a str)
    ensures
        r@ == trimmed(text@),
{
    text.trim()
}

/// Reads `text` as a 32-bit integer, by `str::parse`.
///
/// Trusted: the call succeeds exactly on an optional sign followed by decimal
/// digits whose value fits, and returns that value.
#[verifier::external_body]
pub(crate) fn parse_int32(text: &str) -> (r: Option<i32>)
    ensures
        r == parsed_int32(text@),
{
    match text.parse::<i32>() {
        Ok(value) => Some(value),
        Err(_) => None,
    }
}

/// The frame that carries a parsed answer, or the refusal to send what did
/// not parse.
pub open spec fn solution_frame_of(parsed: Option<i32>) -> Result<Seq<u8>, InputFormatError> {
    match parsed {
        Some(answer) => Ok((MathSolution { answer }).wire()),
        None => Err(InputFormatError),
    }
}

/// Makes the frame that carries a parsed answer. Where nothing was parsed
/// there is no frame.
pub fn solution_frame(parsed: Option<i32>) -> (r: Result<Vec<u8>, InputFormatError>)
    ensures
        match solution_frame_of(parsed) {
            Ok(frame) => r matches Ok(bytes) && bytes@ == frame,
            Err(e) => r == Err::<Vec<u8>, InputFormatError>(e),
        },
{
    match parsed {
        Some(answer) => Ok((MathSolution { answer }).encode_to_vec()),
        None => Err(InputFormatError),
    }
}

/// Reads the integer that the player typed: the line without the white space
/// at its ends must be a 32-bit integer.
pub fn parse_answer(input: &str) -> (r: Option<i32>)
    ensures
        r == parsed_int32(trimmed(input@)),
{
    parse_int32(trim(input))
}

/// Makes the frame that answers with what the player typed. A line that is
/// no integer gives no frame.
pub fn answer_frame(input: &str) -> (r: Result<Vec<u8>, InputFormatError>)
    ensures
        match solution_frame_of(parsed_int32(trimmed(input@))) {
            Ok(frame) => r matches Ok(bytes) && bytes@ == frame,
            Err(e) => r == Err::<Vec<u8>, InputFormatError>(e),
        },
{
    solution_frame(parse_answer(input))
}

} // verus!

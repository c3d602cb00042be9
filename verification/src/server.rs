//! The server's side: what to do with each frame of a game connection, and
//! the reply of the stateless addition service.
//!
//! The program that owns the socket hands each thing that arrives to
//! `GameConnection::handle_message` and carries out the action it gets back.

use crate::channel::{Inbound, InboundView};
use crate::generator::generate_math_problem;
use crate::proto::{AddRequest, AddResponse, MathProblem, MathResponse, MathSolution};
use crate::session::{transition, Outcome, Session, SessionState};
use vstd::prelude::*;

verus! {

/// What the owner of the socket is to do next.
#[derive(Clone, Debug, PartialEq, Eq)]
pub enum ServerAction {
    /// Send the frame and wait for the next thing to arrive.
    Send(Vec<u8>),
    /// Send the frame and close the channel.
    SendAndClose(Vec<u8>),
    /// Send nothing and wait for the next thing to arrive.
    Continue,
    /// Send nothing and give the connection up.
    Terminate(TerminateReason),
}

/// Why the server gives a connection up before the game is won.
#[derive(Clone, Copy, Debug, PartialEq, Eq, Structural)]
pub enum TerminateReason {
    /// A binary frame did not decode as a solution.
    Malformed,
    /// The peer closed the channel.
    ClosedByPeer,
    /// The transport failed.
    TransportFailed,
}

/// A `ServerAction` as a value of specifications.
pub enum ServerActionView {
    Send(Seq<u8>),
    SendAndClose(Seq<u8>),
    Continue,
    Terminate(TerminateReason),
}

impl View for ServerAction {
    type V = ServerActionView;

    open spec fn view(&self) -> ServerActionView {
        match self {
            ServerAction::Send(frame) => ServerActionView::Send(frame@),
            ServerAction::SendAndClose(frame) => ServerActionView::SendAndClose(frame@),
            ServerAction::Continue => ServerActionView::Continue,
            ServerAction::Terminate(reason) => ServerActionView::Terminate(*reason),
        }
    }
}

impl ServerActionView {
    /// Whether the connection goes on after the action.
    pub open spec fn keeps_open(self) -> bool {
        self is Send || self is Continue
    }
}

/// What the server does with `inbound` while `problem` is live, where `fresh`
/// is the problem to pose after a wrong answer.
///
/// A binary frame must hold a solution, else the connection is given up with
/// nothing sent and no further frame taken. The right answer is met with the
/// closing response, after which the channel is closed; a wrong one with a
/// response that carries `fresh`. A close or a failure of the transport ends
/// the connection. Frames of other kinds are ignored.
pub open spec fn reaction(problem: MathProblem, inbound: InboundView, fresh: MathProblem) -> (
    ServerActionView,
    MathProblem,
) {
    match inbound {
        InboundView::Binary(data) => match MathSolution::decoded(data) {
            Err(_) => (ServerActionView::Terminate(TerminateReason::Malformed), problem),
            Ok(solution) => {
                let (state, next, outcome) = transition(problem, solution.answer, fresh);
                let frame = MathResponse::wire(outcome.response());
                if state == SessionState::Finished {
                    (ServerActionView::SendAndClose(frame), next)
                } else {
                    (ServerActionView::Send(frame), next)
                }
            },
        },
        InboundView::Close => (ServerActionView::Terminate(TerminateReason::ClosedByPeer), problem),
        InboundView::Failure => (
            ServerActionView::Terminate(TerminateReason::TransportFailed),
            problem,
        ),
        InboundView::Other => (ServerActionView::Continue, problem),
    }
}

/// One game connection as the server sees it: its session, and whether the
/// connection still goes on.
pub struct GameConnection {
    session: Session,
    open: bool,
}

impl GameConnection {
    /// The live problem of the connection's session.
    pub closed spec fn problem(&self) -> MathProblem {
        self.session.problem()
    }

    /// Whether the connection still goes on.
    pub closed spec fn is_open(&self) -> bool {
        self.open
    }

    /// Whether the game was won.
    pub closed spec fn is_won(&self) -> bool {
        self.session.state() == SessionState::Finished
    }

    /// The invariant of a connection: its session is well formed, and a game
    /// that was won has closed the connection.
    pub closed spec fn wf(&self) -> bool {
        &&& self.session.wf()
        &&& self.open ==> self.session.state() == SessionState::AwaitingAnswer
    }

    /// A well-formed connection poses a problem that the generator can make.
    pub proof fn lemma_problem_in_range(&self)
        requires
            self.wf(),
        ensures
            self.problem().in_range(),
            self.is_open() ==> !self.is_won(),
    {
    }

    /// Opens a connection on a newly made problem, and gives the frame that
    /// poses it: the one frame that is sent before anything arrives.
    pub fn accept() -> (r: (GameConnection, Vec<u8>))
        ensures
            r.0.wf(),
            r.0.is_open(),
            r.1@ == r.0.problem().wire(),
    {
        GameConnection::accept_with(generate_math_problem())
    }

    /// Opens a connection on the given problem, and gives the frame that
    /// poses it.
    pub fn accept_with(problem: MathProblem) -> (r: (GameConnection, Vec<u8>))
        requires
            problem.in_range(),
        ensures
            r.0.wf(),
            r.0.is_open(),
            r.0.problem() == problem,
            r.1@ == problem.wire(),
    {
        let frame = problem.encode_to_vec();
        (GameConnection { session: Session::with_problem(problem), open: true }, frame)
    }

    /// The live problem.
    pub fn current_problem(&self) -> (problem: MathProblem)
        ensures
            problem == self.problem(),
    {
        self.session.current_problem()
    }

    /// Whether the connection still goes on.
    pub fn still_open(&self) -> (r: bool)
        ensures
            r == self.is_open(),
    {
        self.open
    }

    /// Whether the game was won.
    pub fn finished(&self) -> (r: bool)
        ensures
            r == self.is_won(),
    {
        self.session.is_finished()
    }

    /// Gives the connection up.
    fn terminate(&mut self, reason: TerminateReason) -> (action: ServerAction)
        requires
            old(self).wf(),
        ensures
            final(self).wf(),
            action == ServerAction::Terminate(reason),
            !final(self).is_open(),
            final(self).problem() == old(self).problem(),
            final(self).is_won() == old(self).is_won(),
    {
        self.open = false;
        ServerAction::Terminate(reason)
    }

    /// Turns what the session emitted into the frame to send, and closes the
    /// connection if the game is over.
    fn deliver(&mut self, outcome: Outcome) -> (action: ServerAction)
        requires
            old(self).session.wf(),
            outcome@.is_terminal() == old(self).is_won(),
        ensures
            final(self).wf(),
            final(self).problem() == old(self).problem(),
            final(self).is_won() == old(self).is_won(),
            final(self).is_open() == !outcome@.is_terminal(),
            action@ == if outcome@.is_terminal() {
                ServerActionView::SendAndClose(MathResponse::wire(outcome@.response()))
            } else {
                ServerActionView::Send(MathResponse::wire(outcome@.response()))
            },
    {
        let terminal = outcome.is_terminal();
        let frame = outcome.into_response().encode_to_vec();
        if terminal {
            self.open = false;
            ServerAction::SendAndClose(frame)
        } else {
            self.open = true;
            ServerAction::Send(frame)
        }
    }

    /// Decides what to do with `inbound`, with the problem to pose after a
    /// wrong answer.
    pub fn handle_message_with(&mut self, inbound: &Inbound, fresh: MathProblem) -> (action:
        ServerAction)
        requires
            old(self).wf(),
            old(self).is_open(),
            fresh.in_range(),
        ensures
            final(self).wf(),
            (action@, final(self).problem()) == reaction(old(self).problem(), inbound@, fresh),
            final(self).is_open() == action@.keeps_open(),
            final(self).is_won() == (action@ is SendAndClose),
    {
        match inbound {
            Inbound::Binary(data) => match MathSolution::decode(data.as_slice()) {
                Err(_) => self.terminate(TerminateReason::Malformed),
                Ok(solution) => {
                    let outcome = self.session.step(solution, fresh);
                    self.deliver(outcome)
                },
            },
            Inbound::Close => self.terminate(TerminateReason::ClosedByPeer),
            Inbound::Failure => self.terminate(TerminateReason::TransportFailed),
            Inbound::Other => ServerAction::Continue,
        }
    }

    /// Decides what to do with `inbound`. After a wrong answer the connection
    /// poses a newly made problem, which is then its live one.
    pub fn handle_message(&mut self, inbound: &Inbound) -> (action: ServerAction)
        requires
            old(self).wf(),
            old(self).is_open(),
        ensures
            final(self).wf(),
            (action@, final(self).problem()) == reaction(
                old(self).problem(),
                inbound@,
                final(self).problem(),
            ),
            final(self).is_open() == action@.keeps_open(),
            final(self).is_won() == (action@ is SendAndClose),
    {
        match inbound {
            Inbound::Binary(data) => match MathSolution::decode(data.as_slice()) {
                Err(_) => self.terminate(TerminateReason::Malformed),
                Ok(solution) => {
                    let outcome = self.session.submit(solution);
                    self.deliver(outcome)
                },
            },
            Inbound::Close => self.terminate(TerminateReason::ClosedByPeer),
            Inbound::Failure => self.terminate(TerminateReason::TransportFailed),
            Inbound::Other => ServerAction::Continue,
        }
    }

    /// Records that a frame could not be sent: the connection is given up.
    pub fn send_failed(&mut self)
        requires
            old(self).wf(),
        ensures
            final(self).wf(),
            !final(self).is_open(),
            final(self).problem() == old(self).problem(),
            final(self).is_won() == old(self).is_won(),
    {
        self.open = false;
    }
}

/// Why the addition service gives no sum.
#[derive(Clone, Copy, Debug, PartialEq, Eq, Structural)]
pub enum AddError {
    /// The request does not decode. The caller is to blame.
    Malformed,
    /// The sum does not fit in 32 bits.
    Overflow,
}

impl AddRequest {
    /// The sum that is asked for.
    pub open spec fn sum(self) -> int {
        self.a + self.b
    }

    /// Whether the sum fits in the 32 bits of a reply.
    pub open spec fn sum_fits(self) -> bool {
        i32::MIN <= self.sum() <= i32::MAX
    }

    /// The reply to the request.
    pub fn answer(&self) -> (response: AddResponse)
        requires
            self.sum_fits(),
        ensures
            response.result == self.sum(),
    {
        AddResponse { result: self.a + self.b }
    }

    /// The reply to the request, if the sum fits.
    pub fn checked_answer(&self) -> (r: Option<AddResponse>)
        ensures
            self.sum_fits() ==> r == Some(AddResponse { result: self.sum() as i32 }),
            !self.sum_fits() ==> r is None,
    {
        match self.a.checked_add(self.b) {
            Some(result) => Some(AddResponse { result }),
            None => None,
        }
    }
}

/// What the addition service makes of a request body.
pub open spec fn add_reply(body: Seq<u8>) -> Result<Seq<u8>, AddError> {
    match AddRequest::decoded(body) {
        Err(_) => Err(AddError::Malformed),
        Ok(request) => {
            if request.sum_fits() {
                Ok((AddResponse { result: request.sum() as i32 }).wire())
            } else {
                Err(AddError::Overflow)
            }
        },
    }
}

/// Serves one request for a sum: decodes the body, adds, and encodes the
/// reply.
pub fn add_handler(body: &[u8]) -> (r: Result<Vec<u8>, AddError>)
    ensures
        match add_reply(body@) {
            Ok(frame) => r matches Ok(bytes) && bytes@ == frame,
            Err(e) => r == Err::<Vec<u8>, AddError>(e),
        },
{
    match AddRequest::decode(body) {
        Err(_) => Err(AddError::Malformed),
        Ok(request) => match request.checked_answer() {
            Some(response) => Ok(response.encode_to_vec()),
            None => Err(AddError::Overflow),
        },
    }
}

} // verus!

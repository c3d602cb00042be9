//! The state machine of one game: a live problem, an answer, and the
//! decision to end the game or to pose a new problem.

use crate::generator::generate_math_problem;
use crate::proto::math_response::{ResponseType, ResponseTypeView};
use crate::proto::{MathProblem, MathResponse, MathSolution};
use vstd::prelude::*;

verus! {

/// The message that ends a game.
pub const CONGRATULATIONS: &'static str = "Congratulations! Correct answer!";

/// Where a game stands.
#[derive(Clone, Copy, Debug, PartialEq, Eq, Structural)]
pub enum SessionState {
    /// A problem is live and waits for its answer.
    AwaitingAnswer,
    /// The right answer was given. Nothing follows.
    Finished,
}

/// What the state machine emits for an answer.
#[derive(Clone, Debug, PartialEq, Eq)]
pub enum Outcome {
    /// The answer was right. Ends the game.
    Congratulations(String),
    /// The answer was wrong. Carries the next challenge.
    NewProblem(MathProblem),
}

/// An `Outcome` as a value of specifications.
pub enum OutcomeView {
    Congratulations(Seq<char>),
    NewProblem(MathProblem),
}

impl View for Outcome {
    type V = OutcomeView;

    open spec fn view(&self) -> OutcomeView {
        match self {
            Outcome::Congratulations(message) => OutcomeView::Congratulations(message@),
            Outcome::NewProblem(problem) => OutcomeView::NewProblem(*problem),
        }
    }
}

impl OutcomeView {
    /// The response that carries the outcome to the peer.
    pub open spec fn response(self) -> Option<ResponseTypeView> {
        match self {
            OutcomeView::Congratulations(message) => Some(
                ResponseTypeView::Congratulations(message),
            ),
            OutcomeView::NewProblem(problem) => Some(ResponseTypeView::NewProblem(problem)),
        }
    }

    /// Whether the outcome ends the game.
    pub open spec fn is_terminal(self) -> bool {
        self is Congratulations
    }
}

impl Outcome {
    /// Whether the outcome ends the game.
    pub fn is_terminal(&self) -> (r: bool)
        ensures
            r == self@.is_terminal(),
    {
        match self {
            Outcome::Congratulations(_) => true,
            Outcome::NewProblem(_) => false,
        }
    }

    /// The response that carries the outcome to the peer.
    pub fn into_response(self) -> (r: MathResponse)
        ensures
            r@ == self@.response(),
    {
        match self {
            Outcome::Congratulations(message) => MathResponse {
                response_type: Some(ResponseType::Congratulations(message)),
            },
            Outcome::NewProblem(problem) => MathResponse {
                response_type: Some(ResponseType::NewProblem(problem)),
            },
        }
    }
}

/// The answer that solves `problem`.
pub open spec fn expected_answer(problem: MathProblem) -> int {
    problem.a + problem.b
}

/// The transition on an answer while `problem` is live: the next state, the
/// problem that is live afterwards, and what is emitted. `fresh` is the
/// problem to pose if the answer is wrong.
pub open spec fn transition(problem: MathProblem, answer: i32, fresh: MathProblem) -> (
    SessionState,
    MathProblem,
    OutcomeView,
) {
    if answer == expected_answer(problem) {
        (SessionState::Finished, problem, OutcomeView::Congratulations(CONGRATULATIONS@))
    } else {
        (SessionState::AwaitingAnswer, fresh, OutcomeView::NewProblem(fresh))
    }
}

/// The game ends exactly on the right answer; on any other answer the fresh
/// problem becomes the live one and is emitted, whether or not it differs
/// from the one before.
pub proof fn lemma_finished_iff_correct(problem: MathProblem, answer: i32, fresh: MathProblem)
    ensures
        transition(problem, answer, fresh).0 == SessionState::Finished <==> answer
            == problem.a + problem.b,
        transition(problem, answer, fresh).0 == SessionState::Finished ==> transition(
            problem,
            answer,
            fresh,
        ).2.is_terminal(),
        transition(problem, answer, fresh).0 == SessionState::AwaitingAnswer ==> transition(
            problem,
            answer,
            fresh,
        ).1 == fresh && transition(problem, answer, fresh).2 == OutcomeView::NewProblem(fresh),
{
}

/// The server's side of one game.
pub struct Session {
    current_problem: MathProblem,
    state: SessionState,
}

impl Session {
    /// The live problem.
    pub closed spec fn problem(&self) -> MathProblem {
        self.current_problem
    }

    /// Where the game stands.
    pub closed spec fn state(&self) -> SessionState {
        self.state
    }

    /// The invariant of a session: its problem is one that the generator can
    /// make.
    pub open spec fn wf(&self) -> bool {
        self.problem().in_range()
    }

    /// Starts a game on a newly made problem.
    pub fn new() -> (session: Session)
        ensures
            session.wf(),
            session.state() == SessionState::AwaitingAnswer,
    {
        Session { current_problem: generate_math_problem(), state: SessionState::AwaitingAnswer }
    }

    /// Starts a game on the given problem.
    pub fn with_problem(problem: MathProblem) -> (session: Session)
        requires
            problem.in_range(),
        ensures
            session.wf(),
            session.problem() == problem,
            session.state() == SessionState::AwaitingAnswer,
    {
        Session { current_problem: problem, state: SessionState::AwaitingAnswer }
    }

    /// The live problem.
    pub fn current_problem(&self) -> (problem: MathProblem)
        ensures
            problem == self.problem(),
    {
        self.current_problem
    }

    /// Where the game stands.
    pub fn current_state(&self) -> (state: SessionState)
        ensures
            state == self.state(),
    {
        self.state
    }

    /// Whether the game is over.
    pub fn is_finished(&self) -> (r: bool)
        ensures
            r == (self.state() == SessionState::Finished),
    {
        match self.state {
            SessionState::Finished => true,
            SessionState::AwaitingAnswer => false,
        }
    }

    /// The answer that solves the live problem.
    pub fn expected_answer(&self) -> (answer: i32)
        requires
            self.wf(),
        ensures
            answer == expected_answer(self.problem()),
    {
        self.current_problem.a + self.current_problem.b
    }

    /// Whether `solution` solves the live problem.
    pub fn is_correct(&self, solution: &MathSolution) -> (r: bool)
        requires
            self.wf(),
        ensures
            r == (solution.answer == expected_answer(self.problem())),
    {
        solution.answer == self.expected_answer()
    }

    /// Ends the game on the closing message.
    fn finish(&mut self) -> (outcome: Outcome)
        ensures
            final(self).state() == SessionState::Finished,
            final(self).problem() == old(self).problem(),
            outcome@ == OutcomeView::Congratulations(CONGRATULATIONS@),
    {
        self.state = SessionState::Finished;
        Outcome::Congratulations(CONGRATULATIONS.to_owned())
    }

    /// Makes `fresh` the live problem and emits it.
    fn pose(&mut self, fresh: MathProblem) -> (outcome: Outcome)
        ensures
            final(self).state() == old(self).state(),
            final(self).problem() == fresh,
            outcome@ == OutcomeView::NewProblem(fresh),
    {
        self.current_problem = fresh;
        Outcome::NewProblem(fresh)
    }

    /// Takes an answer, with the problem to pose if it is wrong.
    pub fn step(&mut self, solution: MathSolution, fresh: MathProblem) -> (outcome: Outcome)
        requires
            old(self).wf(),
            old(self).state() == SessionState::AwaitingAnswer,
            fresh.in_range(),
        ensures
            final(self).wf(),
            (final(self).state(), final(self).problem(), outcome@) == transition(
                old(self).problem(),
                solution.answer,
                fresh,
            ),
    {
        if self.is_correct(&solution) {
            self.finish()
        } else {
            self.pose(fresh)
        }
    }

    /// Takes an answer. A wrong one makes the session pose a newly made
    /// problem, which is then its live one; a right one consumes no
    /// randomness.
    pub fn submit(&mut self, solution: MathSolution) -> (outcome: Outcome)
        requires
            old(self).wf(),
            old(self).state() == SessionState::AwaitingAnswer,
        ensures
            final(self).wf(),
            (final(self).state(), final(self).problem(), outcome@) == transition(
                old(self).problem(),
                solution.answer,
                final(self).problem(),
            ),
    {
        if self.is_correct(&solution) {
            self.finish()
        } else {
            self.pose(generate_math_problem())
        }
    }
}

} // verus!

//! The two things a game response can carry.

use crate::proto::MathProblem;
use vstd::prelude::*;

verus! {

/// What a response carries: the closing message of a game that was won, or
/// the next challenge.
#[derive(Clone, Debug, PartialEq, Eq)]
pub enum ResponseType {
    Congratulations(String),
    NewProblem(MathProblem),
}

/// A `ResponseType` as a value of specifications: the text as a sequence of
/// characters.
pub enum ResponseTypeView {
    Congratulations(Seq<char>),
    NewProblem(MathProblem),
}

impl View for ResponseType {
    type V = ResponseTypeView;

    open spec fn view(&self) -> ResponseTypeView {
        match self {
            ResponseType::Congratulations(text) => ResponseTypeView::Congratulations(text@),
            ResponseType::NewProblem(problem) => ResponseTypeView::NewProblem(*problem),
        }
    }
}

} // verus!

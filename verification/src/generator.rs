//! The problem generator: two random integers between 1 and 19.

use crate::proto::MathProblem;
use vstd::prelude::*;

verus! {

/// The smallest number a generated problem holds.
pub const MIN_OPERAND: i32 = 1;

/// The largest number a generated problem holds.
pub const MAX_OPERAND: i32 = 19;

impl MathProblem {
    /// Whether both numbers lie in the range that the generator draws from.
    pub open spec fn in_range(self) -> bool {
        &&& MIN_OPERAND <= self.a <= MAX_OPERAND
        &&& MIN_OPERAND <= self.b <= MAX_OPERAND
    }

    /// Whether both numbers lie in the range that the generator draws from.
    pub fn is_in_range(&self) -> (r: bool)
        ensures
            r == self.in_range(),
    {
        MIN_OPERAND <= self.a && self.a <= MAX_OPERAND && MIN_OPERAND <= self.b && self.b
            <= MAX_OPERAND
    }
}

/// The thread-local random number generator of `rand`, carried from the call
/// that fetches it to the calls that draw from it.
#[verifier::external_type_specification]
#[verifier::external_body]
pub struct ExThreadRng(rand::rngs::ThreadRng);

/// Fetches the thread-local generator, by `rand::thread_rng`.
///
/// Trusted: nothing is claimed of the generator.
#[verifier::external_body]
pub(crate) fn thread_rng() -> rand::rngs::ThreadRng {
    rand::thread_rng()
}

/// Draws an integer from `low` up to, but not including, `high`, by
/// `rand::Rng::gen_range` on a half-open range.
///
/// Trusted: the integer drawn lies in the range. Which one it is depends on
/// chance, so nothing more is claimed, and two draws need not agree.
#[verifier::external_body]
pub(crate) fn gen_range(rng: &mut rand::rngs::ThreadRng, low: i32, high: i32) -> (r: i32)
    requires
        low < high,
    ensures
        low <= r < high,
{
    rand::Rng::gen_range(rng, low..high)
}

/// Makes a new problem: each number drawn on its own from 1 to 19. A problem
/// may repeat an earlier one.
pub fn generate_math_problem() -> (problem: MathProblem)
    ensures
        problem.in_range(),
{
    let mut rng = thread_rng();
    let a = gen_range(&mut rng, MIN_OPERAND, MAX_OPERAND + 1);
    let b = gen_range(&mut rng, MIN_OPERAND, MAX_OPERAND + 1);
    MathProblem { a, b }
}

} // verus!

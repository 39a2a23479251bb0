//! The challenge of a run and the solutions found for it.

use vstd::prelude::*;

verus! {

/// The puzzle of one run. It is made once and only read afterwards.
#[derive(Clone, Debug, PartialEq, Eq)]
pub struct Challenge {
    /// Identifier of the run.
    pub task_id: String,
    /// The puzzle parameters, in their serialized form.
    pub puzzle_params: Vec<u8>,
}

/// A candidate result of one attempt.
#[derive(Clone, Debug, PartialEq, Eq)]
pub struct Solution {
    /// Commitment that identifies the solution.
    pub commitment: Vec<u8>,
    /// Score that is held against the acceptance target.
    pub score: u64,
    /// The solution in its serialized form, as it is recorded.
    pub raw_bytes: Vec<u8>,
}

/// The mathematical value of a [`Challenge`].
pub struct ChallengeView {
    pub task_id: Seq<char>,
    pub puzzle_params: Seq<u8>,
}

impl View for Challenge {
    type V = ChallengeView;

    open spec fn view(&self) -> ChallengeView {
        ChallengeView { task_id: self.task_id@, puzzle_params: self.puzzle_params@ }
    }
}

/// The mathematical value of a [`Solution`].
pub struct SolutionView {
    pub commitment: Seq<u8>,
    pub score: u64,
    pub raw_bytes: Seq<u8>,
}

impl View for Solution {
    type V = SolutionView;

    open spec fn view(&self) -> SolutionView {
        SolutionView {
            commitment: self.commitment@,
            score: self.score,
            raw_bytes: self.raw_bytes@,
        }
    }
}

impl Solution {
    /// A solution is accepted when its score reaches the target; a score
    /// equal to the target is accepted.
    pub open spec fn accepted(self, acceptance_target: u64) -> bool {
        self.score >= acceptance_target
    }

    /// Tells whether the solution reaches the target.
    pub fn is_accepted(&self, acceptance_target: u64) -> (b: bool)
        ensures
            b == self.accepted(acceptance_target),
    {
        self.score >= acceptance_target
    }
}

} // verus!

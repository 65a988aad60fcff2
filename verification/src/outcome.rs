//! How an integration ends, and the words in which that is reported.

use vstd::prelude::*;

verus! {

/// A terminal state of the integration.
#[derive(Clone, Copy, Debug, PartialEq, Eq, Structural)]
pub enum Outcome {
    /// The end of the interval was reached.
    Success,
    /// Too many steps in a row were rejected while the step was still above its floor.
    Stiff,
    /// The integrator gave up for a reason of its own, or what it left is
    /// no trajectory.
    Failure,
    /// The cap on the number of iterations was passed.
    MaxIters,
    /// The step size fell below its floor.
    DtLessThanMin,
    /// The linear system of a Newton iteration could not be solved.
    SingularMatrix,
}

impl Outcome {
    /// The text of [`Outcome::message`].
    pub open spec fn message_spec(self) -> Seq<char> {
        match self {
            Outcome::Success => "Success"@,
            Outcome::Stiff => "Too stiff"@,
            Outcome::Failure => "Failure"@,
            Outcome::MaxIters => "Maximum iterations exceeded"@,
            Outcome::DtLessThanMin => "Step size too small"@,
            Outcome::SingularMatrix => "Singular jacobian"@,
        }
    }

    /// The words that report the outcome.
    pub fn message(&self) -> (text: &'static str)
        ensures
            text@ == self.message_spec(),
    {
        match self {
            Outcome::Success => "Success",
            Outcome::Stiff => "Too stiff",
            Outcome::Failure => "Failure",
            Outcome::MaxIters => "Maximum iterations exceeded",
            Outcome::DtLessThanMin => "Step size too small",
            Outcome::SingularMatrix => "Singular jacobian",
        }
    }
}

/// The words of an outcome tell which outcome it is: no two outcomes share
/// their message, and no message is empty.
pub proof fn lemma_message_identifies_outcome(a: Outcome, b: Outcome)
    ensures
        a.message_spec() == b.message_spec() ==> a == b,
        a.message_spec().len() > 0,
{
    reveal_strlit("Success");
    reveal_strlit("Too stiff");
    reveal_strlit("Failure");
    reveal_strlit("Maximum iterations exceeded");
    reveal_strlit("Step size too small");
    reveal_strlit("Singular jacobian");
    assert("Success"@.len() == 7 && "Failure"@.len() == 7);
    assert("Too stiff"@.len() == 9);
    assert("Maximum iterations exceeded"@.len() == 27);
    assert("Step size too small"@.len() == 19);
    assert("Singular jacobian"@.len() == 17);
    // The two messages of one length differ in their first letter.
    assert("Success"@[0] == 'S' && "Failure"@[0] == 'F');
}

} // verus!

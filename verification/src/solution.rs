//! The result of one run: the samples of the trajectory and how the run ended.
//!
//! A trajectory goes upwards: the logarithm of `x` of each sample is a
//! number, and above that of the sample before.  A result holds nothing else.

use vstd::prelude::*;
use vstd::string::StringExecFns;
use crate::binary64::{lemma_lt_is_a_strict_order, Binary64};
use crate::config::{lemma_message_identifies_rule, ConfigError};
use crate::outcome::{lemma_message_identifies_outcome, Outcome};

verus! {

/// One accepted point of the trajectory: the logarithm of `x` and the state `w` there.
#[derive(Clone, Copy, Debug)]
pub struct Sample {
    pub logx: Binary64,
    pub w: Binary64,
}

/// How a run ended.
#[derive(Clone, Copy, Debug, PartialEq, Eq, Structural)]
pub enum Status {
    /// The configuration broke the rule named, and nothing was integrated.
    Refused(ConfigError),
    /// The integrator ran and stopped in the terminal state named.
    Ran(Outcome),
}

/// The head of every status line that reports a refused configuration.
pub open spec fn rejection_prefix() -> Seq<char> {
    "Errored with: "@
}

impl Status {
    /// The text of [`Status::line`].
    pub open spec fn line_spec(self) -> Seq<char> {
        match self {
            Status::Refused(error) => rejection_prefix() + error.message_spec(),
            Status::Ran(outcome) => outcome.message_spec(),
        }
    }

    /// The status line: for a refusal the sentence of the broken rule behind
    /// a fixed head, for a run the words of its outcome.
    pub fn line(&self) -> (text: String)
        ensures
            text@ == self.line_spec(),
    {
        match self {
            Status::Refused(error) => String::from_str("Errored with: ").concat(error.message()),
            Status::Ran(outcome) => String::from_str(outcome.message()),
        }
    }
}

/// What a [`Solution`] holds.
pub struct SolutionView {
    pub samples: Seq<Sample>,
    pub status: Status,
}

/// The trajectory of a run, in the order in which its samples were accepted,
/// and how the run ended.
#[derive(Debug)]
pub struct Solution {
    logxs: Vec<Binary64>,
    ws: Vec<Binary64>,
    status: Status,
}

impl View for Solution {
    type V = SolutionView;

    closed spec fn view(&self) -> SolutionView {
        SolutionView {
            samples: Seq::new(
                self.logxs@.len(),
                |i: int| Sample { logx: self.logxs@[i], w: self.ws@[i] },
            ),
            status: self.status,
        }
    }
}

/// Sample `i` continues the trajectory: its logarithm of `x` is a number,
/// and the one of the sample before, if there is one, lies below it.
pub open spec fn in_order(samples: Seq<Sample>, i: int) -> bool {
    &&& !samples[i].logx.nan()
    &&& i > 0 ==> samples[i - 1].logx.lt_spec(samples[i].logx)
}

impl SolutionView {
    /// The samples go upwards in the logarithm of `x`.
    pub open spec fn ascending(self) -> bool {
        forall|i: int| 0 <= i < self.samples.len() ==> in_order(self.samples, i)
    }

    /// This is the result for an integration that stopped with `outcome`
    /// and left `samples`.  It holds the samples up to the first that does
    /// not continue the trajectory.  Where that is all of them, the outcome
    /// is the integrator's; where one is cut off, the run has failed.
    pub open spec fn packs(self, outcome: Outcome, samples: Seq<Sample>) -> bool {
        let kept = self.samples.len() as int;
        &&& kept <= samples.len()
        &&& self.samples == samples.take(kept)
        &&& self.ascending()
        &&& kept == samples.len() ==> self.status == Status::Ran(outcome)
        &&& kept < samples.len() ==> !in_order(samples, kept) && self.status == Status::Ran(
            Outcome::Failure,
        )
    }
}

impl Solution {
    /// Each sample has both of its parts, and the samples go upwards.
    #[verifier::type_invariant]
    spec fn well_formed(self) -> bool {
        &&& self.logxs@.len() == self.ws@.len()
        &&& self@.ascending()
    }

    /// The number of samples.  They go upwards, in this as in every result.
    pub fn size(&self) -> (n: usize)
        ensures
            n == self@.samples.len(),
            self@.ascending(),
    {
        proof {
            use_type_invariant(self);
        }
        self.logxs.len()
    }

    /// The logarithm of `x` at sample `i`.
    pub fn get_logx(&self, i: usize) -> (logx: Binary64)
        requires
            i < self@.samples.len(),
        ensures
            logx == self@.samples[i as int].logx,
    {
        self.logxs[i]
    }

    /// The state `w` at sample `i`.
    pub fn get_w(&self, i: usize) -> (w: Binary64)
        requires
            i < self@.samples.len(),
        ensures
            w == self@.samples[i as int].w,
    {
        proof {
            use_type_invariant(self);
        }
        self.ws[i]
    }

    /// How the run ended.
    pub fn status(&self) -> (status: Status)
        ensures
            status == self@.status,
    {
        self.status
    }

    /// The status line.
    pub fn get_status(&self) -> (text: String)
        ensures
            text@ == self@.status.line_spec(),
    {
        self.status.line()
    }

    /// The result for a configuration that was refused: no sample, and the
    /// broken rule for its status.
    pub fn rejected(error: ConfigError) -> (sol: Solution)
        ensures
            sol@.samples == Seq::<Sample>::empty(),
            sol@.status == Status::Refused(error),
    {
        Solution { logxs: Vec::new(), ws: Vec::new(), status: Status::Refused(error) }
    }

    /// The result of an integration that stopped with `outcome` and left
    /// `samples`: the samples as they were accepted, up to the first that
    /// does not continue the trajectory.  A run of which a sample is cut off
    /// is reported as failed.
    pub fn assemble(outcome: Outcome, samples: &Vec<Sample>) -> (sol: Solution)
        ensures
            sol@.packs(outcome, samples@),
    {
        let mut logxs: Vec<Binary64> = Vec::with_capacity(samples.len());
        let mut ws: Vec<Binary64> = Vec::with_capacity(samples.len());
        let mut i: usize = 0;
        let mut upwards = true;
        while upwards && i < samples.len()
            invariant
                i <= samples.len(),
                logxs@.len() == i,
                ws@.len() == i,
                forall|j: int|
                    0 <= j < i ==> logxs@[j] == (#[trigger] samples@[j]).logx && ws@[j]
                        == samples@[j].w,
                forall|j: int| 0 <= j < i ==> in_order(samples@, j),
                !upwards ==> i < samples.len() && !in_order(samples@, i as int),
            decreases samples.len() - i + if upwards { 1nat } else { 0nat },
        {
            let sample = samples[i];
            if !sample.logx.is_nan() && (i == 0 || samples[i - 1].logx.lt(&sample.logx)) {
                logxs.push(sample.logx);
                ws.push(sample.w);
                i += 1;
            } else {
                upwards = false;
            }
        }
        let status = if upwards {
            Status::Ran(outcome)
        } else {
            Status::Ran(Outcome::Failure)
        };
        proof {
            let kept = Seq::new(i as nat, |j: int| Sample { logx: logxs@[j], w: ws@[j] });
            assert(kept =~= samples@.take(i as int));
            assert forall|j: int| 0 <= j < i implies in_order(kept, j) by {
                assert(in_order(samples@, j));
            }
        }
        Solution { logxs, ws, status }
    }
}

/// One integration has one result: what packs an outcome and a sequence of
/// samples is fixed by them.
pub proof fn lemma_packs_one(
    a: SolutionView,
    b: SolutionView,
    outcome: Outcome,
    samples: Seq<Sample>,
)
    requires
        a.packs(outcome, samples),
        b.packs(outcome, samples),
    ensures
        a == b,
{
    let (m, n) = (a.samples.len() as int, b.samples.len() as int);
    if m < n {
        assert(in_order(b.samples, m));
    } else if n < m {
        assert(in_order(a.samples, n));
    }
    assert(a.samples =~= b.samples);
}

/// A run whose samples all go upwards is reported as it stands: every
/// sample, and the integrator's own outcome.
pub proof fn lemma_packs_ascending(view: SolutionView, outcome: Outcome, samples: Seq<Sample>)
    requires
        view.packs(outcome, samples),
        forall|i: int| 0 <= i < samples.len() ==> in_order(samples, i),
    ensures
        view.samples == samples,
        view.status == Status::Ran(outcome),
{
    assert(view.samples =~= samples);
}

/// The status line tells how the run ended: it is never empty, and no two
/// ways for a run to end are reported in the same words.  So a reader of the
/// line alone can tell a refusal from a run, which rule was broken, and
/// which outcome the run had.
pub proof fn lemma_line_identifies_status(a: Status, b: Status)
    ensures
        a.line_spec() == b.line_spec() ==> a == b,
        a.line_spec().len() > 0,
{
    match a {
        Status::Refused(x) => {
            assert(a.line_spec().len() == rejection_prefix().len() + x.message_spec().len());
            lemma_message_identifies_rule(x, x);
        },
        Status::Ran(x) => {
            lemma_message_identifies_outcome(x, x);
        },
    }
    reveal_strlit("Errored with: ");
    let head = rejection_prefix();
    match (a, b) {
        (Status::Refused(x), Status::Refused(y)) => {
            if a.line_spec() == b.line_spec() {
                // Behind the one head stand the two sentences.
                let (p, q) = (x.message_spec(), y.message_spec());
                assert((head + p).len() == head.len() + p.len());
                assert((head + q).len() == head.len() + q.len());
                assert forall|i: int| 0 <= i < p.len() implies p[i] == q[i] by {
                    assert(p[i] == (head + p)[head.len() + i]);
                    assert(q[i] == (head + q)[head.len() + i]);
                }
                assert(p =~= q);
                lemma_message_identifies_rule(x, y);
            }
        },
        (Status::Ran(x), Status::Ran(y)) => {
            lemma_message_identifies_outcome(x, y);
        },
        (Status::Refused(x), Status::Ran(y)) => {
            lemma_refusal_differs_from_run(x, y);
        },
        (Status::Ran(x), Status::Refused(y)) => {
            lemma_refusal_differs_from_run(y, x);
        },
    }
}

/// No refusal is reported in the words of an outcome: the line of a
/// refusal begins with a letter with which none of those begins.
proof fn lemma_refusal_differs_from_run(error: ConfigError, outcome: Outcome)
    ensures
        Status::Refused(error).line_spec() != Status::Ran(outcome).line_spec(),
{
    reveal_strlit("Errored with: ");
    reveal_strlit("Success");
    reveal_strlit("Too stiff");
    reveal_strlit("Failure");
    reveal_strlit("Maximum iterations exceeded");
    reveal_strlit("Step size too small");
    reveal_strlit("Singular jacobian");
    let refused = Status::Refused(error).line_spec();
    assert(refused.len() > 0 && refused[0] == 'E');
}

/// In an ascending trajectory every sample lies below every later one: no
/// logarithm of `x` comes twice, and none is not a number.
pub proof fn lemma_ascending_orders_all(view: SolutionView, i: int, j: int)
    requires
        view.ascending(),
        0 <= i < j < view.samples.len(),
    ensures
        view.samples[i].logx.lt_spec(view.samples[j].logx),
    decreases j - i,
{
    assert(in_order(view.samples, i + 1));
    if i + 1 < j {
        lemma_ascending_orders_all(view, i + 1, j);
        lemma_lt_is_a_strict_order(
            view.samples[i].logx,
            view.samples[i + 1].logx,
            view.samples[j].logx,
        );
    }
}

} // verus!

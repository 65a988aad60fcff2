//! One run from configuration to result.
//!
//! The integration itself is floating-point work and is handed in as an
//! engine.  What is fixed here is the rest: a refused configuration never
//! reaches the engine, an accepted one reaches it unchanged, and what the
//! engine leaves behind is reported as far as it is a trajectory.

use vstd::prelude::*;
use vstd::arithmetic::power2::{lemma2_to64, lemma_pow2_adds, pow2};
use crate::binary64::Binary64;
use crate::config::{lemma_first_violation, Config, ConfigError};
use crate::outcome::Outcome;
use crate::solution::{
    in_order, lemma_packs_ascending, lemma_packs_one, Sample, Solution, SolutionView, Status,
};

verus! {

/// The parameters of the equation, fixed for the length of one integration.
#[derive(Clone, Copy, Debug)]
pub struct Model {
    pub mass: Binary64,
    pub n: i32,
    pub sigma: Binary64,
}

impl Model {
    /// The value of [`Model::exponent`].
    pub open spec fn exponent_spec(self) -> int {
        self.n + 1
    }

    /// The power of `x` by which the rate falls: `n + 1`.
    pub fn exponent(&self) -> (e: i64)
        ensures
            e == self.n + 1,
            e == self.exponent_spec(),
    {
        let n: i64 = self.n as i64;
        n + 1
    }
}

/// The bit pattern of the datum nearest to one in ten million.
pub const TOLERANCE_BITS: u64 = 0x3e7a_d7f2_9abc_af48;

/// An accepted configuration, as the engine gets it: the model, the interval
/// of `x` to cover, and the relative and the absolute tolerance to keep.
#[derive(Clone, Copy, Debug)]
pub struct Problem {
    pub model: Model,
    pub x_start: Binary64,
    pub x_end: Binary64,
    pub reltol: Binary64,
    pub abstol: Binary64,
}

impl Problem {
    /// The tolerance, relative and absolute, of every run.
    pub open spec fn tolerance() -> Binary64 {
        Binary64 { bits: TOLERANCE_BITS }
    }

    /// The problem that a configuration poses.
    pub open spec fn of(config: Config) -> Problem {
        Problem {
            model: Model { mass: config.mass, n: config.n, sigma: config.sigma },
            x_start: config.x_start,
            x_end: config.x_end,
            reltol: Problem::tolerance(),
            abstol: Problem::tolerance(),
        }
    }
}

/// What an engine leaves behind: the terminal state in which it stopped,
/// and the samples it accepted, in their order.
#[derive(Debug)]
pub struct Run {
    pub outcome: Outcome,
    pub samples: Vec<Sample>,
}

/// What is reported for a configuration that breaks the rule `error`.
pub open spec fn rejection(error: ConfigError) -> SolutionView {
    SolutionView { samples: Seq::empty(), status: Status::Refused(error) }
}

/// What [`solve`] may return for a configuration and an engine: the
/// rejection, where the configuration breaks a rule; else the result that
/// packs a run that the engine may leave for the problem of the configuration.
pub open spec fn solves<E: FnOnce(Problem) -> Run>(
    config: Config,
    engine: E,
    result: SolutionView,
) -> bool {
    match config.first_violation() {
        Some(error) => result == rejection(error),
        None => exists|run: Run|
            engine.ensures((Problem::of(config),), run) && result.packs(
                run.outcome,
                run.samples@,
            ),
    }
}

/// Decides whether a configuration is integrated at all.  An accepted one
/// gives its problem; a refused one gives the finished result that reports
/// the broken rule.
pub fn prepare(config: &Config) -> (r: Result<Problem, Solution>)
    ensures
        match config.first_violation() {
            None => r matches Ok(problem) && problem == Problem::of(*config),
            Some(error) => r matches Err(sol) && sol@ == rejection(error),
        },
{
    match config.verify() {
        Err(error) => Err(Solution::rejected(error)),
        Ok(()) => Ok(
            Problem {
                model: Model { mass: config.mass, n: config.n, sigma: config.sigma },
                x_start: config.x_start,
                x_end: config.x_end,
                reltol: Binary64::from_bits(TOLERANCE_BITS),
                abstol: Binary64::from_bits(TOLERANCE_BITS),
            },
        ),
    }
}

/// Runs one configuration.  A refused configuration is reported without a
/// call of the engine.  An accepted one is handed to the engine once, and
/// the result packs what the engine left.  Whatever the configuration and
/// the engine, the trajectory of the result goes upwards.
pub fn solve<E: FnOnce(Problem) -> Run>(config: Config, engine: E) -> (sol: Solution)
    requires
        config.valid() ==> engine.requires((Problem::of(config),)),
    ensures
        solves(config, engine, sol@),
        sol@.ascending(),
{
    match prepare(&config) {
        Err(sol) => sol,
        Ok(problem) => {
            let run = engine(problem);
            let sol = Solution::assemble(run.outcome, &run.samples);
            assert(engine.ensures((Problem::of(config),), run) && sol@.packs(
                run.outcome,
                run.samples@,
            ));
            sol
        },
    }
}

/// The tolerance of every run is one in ten million, as binary64 has it.
pub proof fn lemma_tolerance_value()
    ensures
        Problem::tolerance().rounds_ratio(1, 10_000_000),
{
    let t = Problem::tolerance();
    lemma2_to64();
    assert(t.biased_exponent() == 999);
    assert(t.fraction() == 0xa_d7f2_9abc_af48);
    // The significand is 2^76 / 10^7, rounded to an integer.
    let m: int = 0x1a_d7f2_9abc_af48;
    let p = pow2(998);
    lemma_pow2_adds(64, 12);
    lemma_pow2_adds(76, 998);
    assert(pow2(76) == 0x1000_0000_0000_0000_0000);
    assert(t.scaled_value() == m * p);
    assert(pow2(1074) == 0x1000_0000_0000_0000_0000 * p);
    assert(2 * ((m * p) * 10_000_000 - 1 * (0x1000_0000_0000_0000_0000 * p)) <= 10_000_000 * p
        && 2 * (1 * (0x1000_0000_0000_0000_0000 * p) - (m * p) * 10_000_000) <= 10_000_000 * p)
        by (nonlinear_arith)
        requires
            m == 0x1a_d7f2_9abc_af48,
            p >= 0,
    ;
}

/// The result is a function of the configuration, as far as the engine is
/// one: where every run that the engine may leave for a problem has the
/// same outcome and the same samples, two results for the same configuration
/// are the same, sample for sample and in their status.
pub proof fn lemma_solve_is_determined<E: FnOnce(Problem) -> Run>(
    config: Config,
    engine: E,
    first: SolutionView,
    second: SolutionView,
)
    requires
        solves(config, engine, first),
        solves(config, engine, second),
        forall|a: Run, b: Run|
            engine.ensures((Problem::of(config),), a) && engine.ensures((Problem::of(config),), b)
                ==> a.outcome == b.outcome && a.samples@ == b.samples@,
    ensures
        first == second,
{
    if config.first_violation() is None {
        let a = choose|run: Run|
            engine.ensures((Problem::of(config),), run) && first.packs(run.outcome, run.samples@);
        let b = choose|run: Run|
            engine.ensures((Problem::of(config),), run) && second.packs(
                run.outcome,
                run.samples@,
            );
        lemma_packs_one(first, second, a.outcome, a.samples@);
    }
}

/// The trajectory of every result goes upwards in the logarithm of `x`,
/// whatever the configuration, the engine and the status.
pub proof fn lemma_solve_ascends<E: FnOnce(Problem) -> Run>(
    config: Config,
    engine: E,
    result: SolutionView,
)
    requires
        solves(config, engine, result),
    ensures
        result.ascending(),
{
}

/// A run that goes upwards is reported as it stands, whatever its outcome:
/// given an accepted configuration and an engine whose runs all go upwards
/// and have the outcome named, the result has that outcome for its status
/// and the samples of one of those runs, all of them.  So a run that stops
/// short, with the step below its floor or otherwise, keeps the samples
/// accepted before it stopped.
pub proof fn lemma_solve_keeps_run<E: FnOnce(Problem) -> Run>(
    config: Config,
    engine: E,
    result: SolutionView,
    outcome: Outcome,
)
    requires
        config.valid(),
        solves(config, engine, result),
        forall|run: Run| #[trigger]
            engine.ensures((Problem::of(config),), run) ==> run.outcome == outcome && forall|
                i: int,
            | 0 <= i < run.samples@.len() ==> in_order(run.samples@, i),
    ensures
        result.status == Status::Ran(outcome),
        exists|run: Run| #[trigger]
            engine.ensures((Problem::of(config),), run) && result.samples == run.samples@,
{
    lemma_first_violation(config);
    let run = choose|run: Run|
        engine.ensures((Problem::of(config),), run) && result.packs(run.outcome, run.samples@);
    lemma_packs_ascending(result, run.outcome, run.samples@);
}

} // verus!

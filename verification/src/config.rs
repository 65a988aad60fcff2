//! The configuration of one run and the rules it is held to.

use vstd::prelude::*;
use vstd::arithmetic::power2::{lemma2_to64, lemma2_to64_rest, lemma_pow2_adds, pow2};
use crate::binary64::{lemma_lt_orders_values, Binary64};

verus! {

/// The rule that a configuration breaks.
#[derive(Clone, Copy, Debug, PartialEq, Eq, Structural)]
pub enum ConfigError {
    /// `x_start` is not at least zero.
    InvalidXStart,
    /// `x_end` is not at least zero.
    InvalidXEnd,
    /// `sigma` is not at least zero.
    InvalidSigma,
    /// `mass` is not at least zero.
    InvalidMass,
    /// `n` is below zero.
    InvalidN,
    /// `x_end` is not at least `x_start`.
    InvalidSpan,
}

impl ConfigError {
    /// The place of the rule in the order in which the rules are tried.
    pub open spec fn precedence(self) -> nat {
        match self {
            ConfigError::InvalidXStart => 0,
            ConfigError::InvalidXEnd => 1,
            ConfigError::InvalidSigma => 2,
            ConfigError::InvalidMass => 3,
            ConfigError::InvalidN => 4,
            ConfigError::InvalidSpan => 5,
        }
    }

    /// The text of [`ConfigError::message`].
    pub open spec fn message_spec(self) -> Seq<char> {
        match self {
            ConfigError::InvalidXStart => "Invalid x-start."@,
            ConfigError::InvalidXEnd => "Invalid x-end."@,
            ConfigError::InvalidSigma => "Invalid sigma."@,
            ConfigError::InvalidMass => "Invalid mass."@,
            ConfigError::InvalidN => "Invalid n."@,
            ConfigError::InvalidSpan => "Invalid x-end or x-start."@,
        }
    }

    /// The sentence that names the broken rule.
    pub fn message(&self) -> (text: &'static str)
        ensures
            text@ == self.message_spec(),
    {
        match self {
            ConfigError::InvalidXStart => "Invalid x-start.",
            ConfigError::InvalidXEnd => "Invalid x-end.",
            ConfigError::InvalidSigma => "Invalid sigma.",
            ConfigError::InvalidMass => "Invalid mass.",
            ConfigError::InvalidN => "Invalid n.",
            ConfigError::InvalidSpan => "Invalid x-end or x-start.",
        }
    }
}

/// What one run is asked to do: follow the yield from `x_start` to `x_end`,
/// where `x` is the ratio of mass to temperature, for a particle of the given
/// `mass`.  `sigma` is the scale of its annihilation cross section and `n` the
/// power of `x` with which the cross section falls.
#[derive(Clone, Copy, Debug)]
pub struct Config {
    pub x_start: Binary64,
    pub x_end: Binary64,
    pub mass: Binary64,
    pub n: i32,
    pub sigma: Binary64,
}

/// The bit pattern of 1.
pub const ONE_BITS: u64 = 0x3ff0_0000_0000_0000;

/// The bit pattern of 100.
pub const HUNDRED_BITS: u64 = 0x4059_0000_0000_0000;

/// The bit pattern of 500.
pub const FIVE_HUNDRED_BITS: u64 = 0x407f_4000_0000_0000;

/// The bit pattern of the datum nearest to one billionth.
pub const BILLIONTH_BITS: u64 = 0x3e11_2e0b_e826_d695;

impl Config {
    /// The configuration that [`Config::new`] gives.
    pub open spec fn nominal() -> Config {
        Config {
            x_start: Binary64 { bits: ONE_BITS },
            x_end: Binary64 { bits: FIVE_HUNDRED_BITS },
            mass: Binary64 { bits: HUNDRED_BITS },
            n: 0,
            sigma: Binary64 { bits: BILLIONTH_BITS },
        }
    }

    /// The nominal configuration: `x` from 1 to 500, a mass of 100, `n` zero,
    /// and for `sigma` one billionth as binary64 has it.  It breaks no rule.
    pub fn new() -> (c: Config)
        ensures
            c == Config::nominal(),
            c.x_start.equals_ratio(1, 1),
            c.x_end.equals_ratio(500, 1),
            c.mass.equals_ratio(100, 1),
            c.n == 0,
            c.sigma.rounds_ratio(1, 1_000_000_000),
            c.valid(),
    {
        proof {
            lemma_nominal_values();
        }
        Config {
            x_start: Binary64::from_bits(ONE_BITS),
            x_end: Binary64::from_bits(FIVE_HUNDRED_BITS),
            mass: Binary64::from_bits(HUNDRED_BITS),
            n: 0,
            sigma: Binary64::from_bits(BILLIONTH_BITS),
        }
    }

    /// The configuration breaks the rule `e`: the bound that the rule sets
    /// is not met.  What is not a number meets no bound.
    pub open spec fn violates(self, e: ConfigError) -> bool {
        match e {
            ConfigError::InvalidXStart => !self.x_start.ge_spec(Binary64::zero()),
            ConfigError::InvalidXEnd => !self.x_end.ge_spec(Binary64::zero()),
            ConfigError::InvalidSigma => !self.sigma.ge_spec(Binary64::zero()),
            ConfigError::InvalidMass => !self.mass.ge_spec(Binary64::zero()),
            ConfigError::InvalidN => self.n < 0,
            ConfigError::InvalidSpan => !self.x_end.ge_spec(self.x_start),
        }
    }

    /// The configuration breaks no rule.
    pub open spec fn valid(self) -> bool {
        forall|e: ConfigError| !self.violates(e)
    }

    /// The broken rule that is reported: of those broken, the one tried first.
    pub open spec fn first_violation(self) -> Option<ConfigError> {
        if self.violates(ConfigError::InvalidXStart) {
            Some(ConfigError::InvalidXStart)
        } else if self.violates(ConfigError::InvalidXEnd) {
            Some(ConfigError::InvalidXEnd)
        } else if self.violates(ConfigError::InvalidSigma) {
            Some(ConfigError::InvalidSigma)
        } else if self.violates(ConfigError::InvalidMass) {
            Some(ConfigError::InvalidMass)
        } else if self.violates(ConfigError::InvalidN) {
            Some(ConfigError::InvalidN)
        } else if self.violates(ConfigError::InvalidSpan) {
            Some(ConfigError::InvalidSpan)
        } else {
            None
        }
    }

    /// Holds the configuration to the rules.  It is accepted exactly when it
    /// breaks none; else the rule tried first among the broken ones is returned.
    pub fn verify(&self) -> (r: Result<(), ConfigError>)
        ensures
            r is Ok <==> self.valid(),
            r == match self.first_violation() {
                Some(e) => Err::<(), ConfigError>(e),
                None => Ok(()),
            },
            r matches Err(e) ==> self.violates(e) && forall|earlier: ConfigError|
                earlier.precedence() < e.precedence() ==> !self.violates(earlier),
    {
        let zero = Binary64::from_bits(0);
        if !self.x_start.ge(&zero) {
            return Err(ConfigError::InvalidXStart);
        }
        if !self.x_end.ge(&zero) {
            return Err(ConfigError::InvalidXEnd);
        }
        if !self.sigma.ge(&zero) {
            return Err(ConfigError::InvalidSigma);
        }
        if !self.mass.ge(&zero) {
            return Err(ConfigError::InvalidMass);
        }
        if self.n < 0 {
            return Err(ConfigError::InvalidN);
        }
        if !self.x_end.ge(&self.x_start) {
            return Err(ConfigError::InvalidSpan);
        }
        proof {
            lemma_no_rule_broken(*self);
        }
        Ok(())
    }
}

/// A configuration that breaks none of the six rules is valid.
proof fn lemma_no_rule_broken(config: Config)
    requires
        !config.violates(ConfigError::InvalidXStart),
        !config.violates(ConfigError::InvalidXEnd),
        !config.violates(ConfigError::InvalidSigma),
        !config.violates(ConfigError::InvalidMass),
        !config.violates(ConfigError::InvalidN),
        !config.violates(ConfigError::InvalidSpan),
    ensures
        config.valid(),
{
    assert forall|e: ConfigError| !config.violates(e) by {
        match e {
            ConfigError::InvalidXStart => {},
            ConfigError::InvalidXEnd => {},
            ConfigError::InvalidSigma => {},
            ConfigError::InvalidMass => {},
            ConfigError::InvalidN => {},
            ConfigError::InvalidSpan => {},
        }
    }
}

/// A rule is reported exactly for the configurations that are not valid, and
/// the rule reported is broken, and none that is tried before it.
pub proof fn lemma_first_violation(config: Config)
    ensures
        config.first_violation() is None <==> config.valid(),
        config.first_violation() matches Some(e) ==> config.violates(e) && forall|
            earlier: ConfigError,
        | earlier.precedence() < e.precedence() ==> !config.violates(earlier),
{
    if config.first_violation() is None {
        lemma_no_rule_broken(config);
    }
}

/// No valid configuration holds what is not a number.
pub proof fn lemma_valid_holds_numbers(config: Config)
    requires
        config.valid(),
    ensures
        !config.x_start.nan(),
        !config.x_end.nan(),
        !config.mass.nan(),
        !config.sigma.nan(),
{
    assert(!config.violates(ConfigError::InvalidXStart));
    assert(!config.violates(ConfigError::InvalidXEnd));
    assert(!config.violates(ConfigError::InvalidSigma));
    assert(!config.violates(ConfigError::InvalidMass));
}

/// The rules in numbers: a configuration of finite data is accepted exactly
/// when `0 <= x_start <= x_end`, and neither `mass` nor `sigma` nor `n` is
/// below zero.
pub proof fn lemma_valid_in_numbers(config: Config)
    requires
        config.x_start.finite(),
        config.x_end.finite(),
        config.mass.finite(),
        config.sigma.finite(),
    ensures
        config.valid() <==> {
            &&& 0 <= config.x_start.scaled_value() <= config.x_end.scaled_value()
            &&& 0 <= config.mass.scaled_value()
            &&& 0 <= config.sigma.scaled_value()
            &&& 0 <= config.n
        },
{
    let zero = Binary64::zero();
    lemma_lt_orders_values(config.x_start, zero);
    lemma_lt_orders_values(config.x_end, zero);
    lemma_lt_orders_values(config.sigma, zero);
    lemma_lt_orders_values(config.mass, zero);
    lemma_lt_orders_values(config.x_end, config.x_start);
    if config.valid() {
        assert(!config.violates(ConfigError::InvalidXStart));
        assert(!config.violates(ConfigError::InvalidSigma));
        assert(!config.violates(ConfigError::InvalidMass));
        assert(!config.violates(ConfigError::InvalidN));
        assert(!config.violates(ConfigError::InvalidSpan));
    } else if 0 <= config.x_start.scaled_value() <= config.x_end.scaled_value() && 0
        <= config.mass.scaled_value() && 0 <= config.sigma.scaled_value() && 0 <= config.n {
        lemma_no_rule_broken(config);
    }
}

/// The sentence of a rule tells which rule it is: no two rules share their
/// sentence.
pub proof fn lemma_message_identifies_rule(a: ConfigError, b: ConfigError)
    ensures
        a.message_spec() == b.message_spec() ==> a == b,
        a.message_spec().len() >= 10,
{
    reveal_strlit("Invalid x-start.");
    reveal_strlit("Invalid x-end.");
    reveal_strlit("Invalid sigma.");
    reveal_strlit("Invalid mass.");
    reveal_strlit("Invalid n.");
    reveal_strlit("Invalid x-end or x-start.");
    assert("Invalid x-start."@.len() == 16);
    assert("Invalid x-end."@.len() == 14 && "Invalid sigma."@.len() == 14);
    assert("Invalid mass."@.len() == 13);
    assert("Invalid n."@.len() == 10);
    assert("Invalid x-end or x-start."@.len() == 25);
    // The two sentences of one length differ in their ninth letter.
    assert("Invalid x-end."@[8] == 'x' && "Invalid sigma."@[8] == 's');
}

/// The numbers that the nominal configuration holds.
proof fn lemma_nominal_values()
    ensures
        Config::nominal().x_start.equals_ratio(1, 1),
        Config::nominal().x_end.equals_ratio(500, 1),
        Config::nominal().mass.equals_ratio(100, 1),
        Config::nominal().sigma.rounds_ratio(1, 1_000_000_000),
        Config::nominal().valid(),
{
    let c = Config::nominal();
    lemma2_to64();
    lemma2_to64_rest();
    assert(c.x_start.equals_ratio(1, 1)) by {
        assert(c.x_start.biased_exponent() == 1023 && c.x_start.fraction() == 0);
        lemma_pow2_adds(52, 1022);
    }
    assert(c.x_end.equals_ratio(500, 1)) by {
        assert(c.x_end.biased_exponent() == 1031);
        assert(c.x_end.fraction() == 0xf_4000_0000_0000);
        // The significand is 500 * 2^44.
        lemma_pow2_adds(44, 1030);
        let p = pow2(1030);
        assert((0x10_0000_0000_0000 + 0xf_4000_0000_0000) * p == 500 * (0x1000_0000_0000 * p))
            by (nonlinear_arith);
    }
    assert(c.mass.equals_ratio(100, 1)) by {
        assert(c.mass.biased_exponent() == 1029);
        assert(c.mass.fraction() == 0x9_0000_0000_0000);
        // The significand is 100 * 2^46.
        lemma_pow2_adds(46, 1028);
        let p = pow2(1028);
        assert((0x10_0000_0000_0000 + 0x9_0000_0000_0000) * p == 100 * (0x4000_0000_0000 * p))
            by (nonlinear_arith);
    }
    assert(c.sigma.rounds_ratio(1, 1_000_000_000)) by {
        assert(c.sigma.biased_exponent() == 993);
        assert(c.sigma.fraction() == 0x1_2e0b_e826_d695);
        // The significand is 2^82 / 10^9, rounded to an integer.
        let m: int = 0x11_2e0b_e826_d695;
        let p = pow2(992);
        lemma_pow2_adds(64, 18);
        lemma_pow2_adds(82, 992);
        assert(pow2(82) == 0x4_0000_0000_0000_0000_0000);
        assert(c.sigma.scaled_value() == m * p);
        assert(pow2(1074) == 0x4_0000_0000_0000_0000_0000 * p);
        assert(2 * ((m * p) * 1_000_000_000 - 1 * (0x4_0000_0000_0000_0000_0000 * p)) <= 1_000_000_000
            * p && 2 * (1 * (0x4_0000_0000_0000_0000_0000 * p) - (m * p) * 1_000_000_000)
            <= 1_000_000_000 * p) by (nonlinear_arith)
            requires
                m == 0x11_2e0b_e826_d695,
                p >= 0,
        ;
    }
    lemma_no_rule_broken(c);
}

} // verus!

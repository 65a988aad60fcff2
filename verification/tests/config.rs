use boltzmann::{Binary64, Config, ConfigError};

fn b(x: f64) -> Binary64 {
    Binary64::from_bits(x.to_bits())
}

fn config(x_start: f64, x_end: f64, mass: f64, n: i32, sigma: f64) -> Config {
    Config { x_start: b(x_start), x_end: b(x_end), mass: b(mass), n, sigma: b(sigma) }
}

#[test]
fn new_gives_the_nominal_configuration() {
    let c = Config::new();
    assert_eq!(c.x_start.to_bits(), 1.0f64.to_bits());
    assert_eq!(c.x_end.to_bits(), 500.0f64.to_bits());
    assert_eq!(c.mass.to_bits(), 100.0f64.to_bits());
    assert_eq!(c.n, 0);
    assert_eq!(c.sigma.to_bits(), 1e-9f64.to_bits());
}

#[test]
fn the_nominal_configuration_is_accepted() {
    assert_eq!(Config::new().verify(), Ok(()));
    assert_eq!(config(1.0, 500.0, 100.0, 0, 1e-9).verify(), Ok(()));
}

#[test]
fn negative_x_start_is_refused() {
    assert_eq!(config(-1.0, 500.0, 100.0, 0, 1e-9).verify(), Err(ConfigError::InvalidXStart));
}

#[test]
fn negative_x_end_is_refused() {
    assert_eq!(config(1.0, -500.0, 100.0, 0, 1e-9).verify(), Err(ConfigError::InvalidXEnd));
    assert_eq!(config(0.0, -1e-300, 100.0, 0, 1e-9).verify(), Err(ConfigError::InvalidXEnd));
}

#[test]
fn negative_sigma_is_refused() {
    assert_eq!(config(1.0, 500.0, 100.0, 0, -1e-9).verify(), Err(ConfigError::InvalidSigma));
}

#[test]
fn negative_mass_is_refused() {
    assert_eq!(config(1.0, 500.0, -100.0, 0, 1e-9).verify(), Err(ConfigError::InvalidMass));
}

#[test]
fn negative_n_is_refused() {
    assert_eq!(config(1.0, 500.0, 100.0, -1, 1e-9).verify(), Err(ConfigError::InvalidN));
    assert_eq!(config(1.0, 500.0, 100.0, i32::MIN, 1e-9).verify(), Err(ConfigError::InvalidN));
}

#[test]
fn x_end_below_x_start_is_refused() {
    assert_eq!(config(10.0, 1.0, 100.0, 0, 1e-9).verify(), Err(ConfigError::InvalidSpan));
}

#[test]
fn the_rule_tried_first_is_the_one_reported() {
    assert_eq!(config(-1.0, -2.0, -3.0, -4, -5.0).verify(), Err(ConfigError::InvalidXStart));
    assert_eq!(config(1.0, -2.0, -3.0, -4, -5.0).verify(), Err(ConfigError::InvalidXEnd));
    assert_eq!(config(1.0, 0.5, -3.0, -4, -5.0).verify(), Err(ConfigError::InvalidSigma));
    assert_eq!(config(1.0, 0.5, -3.0, -4, 5.0).verify(), Err(ConfigError::InvalidMass));
    assert_eq!(config(1.0, 0.5, 3.0, -4, 5.0).verify(), Err(ConfigError::InvalidN));
    assert_eq!(config(1.0, 0.5, 3.0, 4, 5.0).verify(), Err(ConfigError::InvalidSpan));
}

#[test]
fn zeros_are_accepted() {
    assert_eq!(config(0.0, 0.0, 0.0, 0, 0.0).verify(), Ok(()));
    assert_eq!(config(-0.0, -0.0, -0.0, 0, -0.0).verify(), Ok(()));
    assert_eq!(config(0.0, -0.0, 100.0, 0, 1e-9).verify(), Ok(()));
}

#[test]
fn an_empty_interval_is_accepted() {
    assert_eq!(config(7.0, 7.0, 100.0, 0, 1e-9).verify(), Ok(()));
}

#[test]
fn the_largest_n_is_accepted() {
    assert_eq!(config(1.0, 500.0, 100.0, i32::MAX, 1e-9).verify(), Ok(()));
}

#[test]
fn what_is_not_a_number_meets_no_bound() {
    let nan = f64::NAN;
    assert_eq!(config(nan, 500.0, 100.0, 0, 1e-9).verify(), Err(ConfigError::InvalidXStart));
    assert_eq!(config(1.0, nan, 100.0, 0, 1e-9).verify(), Err(ConfigError::InvalidXEnd));
    assert_eq!(config(1.0, 500.0, 100.0, 0, nan).verify(), Err(ConfigError::InvalidSigma));
    assert_eq!(config(1.0, 500.0, nan, 0, 1e-9).verify(), Err(ConfigError::InvalidMass));
    assert_eq!(config(1.0, 500.0, nan, 0, nan).verify(), Err(ConfigError::InvalidSigma));
    assert_eq!(config(-nan, -nan, -nan, 0, -nan).verify(), Err(ConfigError::InvalidXStart));
    assert_eq!(config(nan, nan, nan, -1, nan).verify(), Err(ConfigError::InvalidXStart));
}

#[test]
fn infinities_are_held_to_the_same_rules() {
    let inf = f64::INFINITY;
    assert_eq!(config(1.0, inf, 100.0, 0, 1e-9).verify(), Ok(()));
    assert_eq!(config(-inf, inf, 100.0, 0, 1e-9).verify(), Err(ConfigError::InvalidXStart));
    assert_eq!(config(inf, 500.0, 100.0, 0, 1e-9).verify(), Err(ConfigError::InvalidSpan));
}

#[test]
fn each_rule_has_its_sentence() {
    assert_eq!(ConfigError::InvalidXStart.message(), "Invalid x-start.");
    assert_eq!(ConfigError::InvalidXEnd.message(), "Invalid x-end.");
    assert_eq!(ConfigError::InvalidSigma.message(), "Invalid sigma.");
    assert_eq!(ConfigError::InvalidMass.message(), "Invalid mass.");
    assert_eq!(ConfigError::InvalidN.message(), "Invalid n.");
    assert_eq!(ConfigError::InvalidSpan.message(), "Invalid x-end or x-start.");
}

/// The rules as they read on the numbers themselves.
fn rules(x_start: f64, x_end: f64, mass: f64, n: i32, sigma: f64) -> Result<(), ConfigError> {
    if !(x_start >= 0.0) {
        return Err(ConfigError::InvalidXStart);
    }
    if !(x_end >= 0.0) {
        return Err(ConfigError::InvalidXEnd);
    }
    if !(sigma >= 0.0) {
        return Err(ConfigError::InvalidSigma);
    }
    if !(mass >= 0.0) {
        return Err(ConfigError::InvalidMass);
    }
    if !(n >= 0) {
        return Err(ConfigError::InvalidN);
    }
    if !(x_end >= x_start) {
        return Err(ConfigError::InvalidSpan);
    }
    Ok(())
}

#[test]
fn verify_agrees_with_the_rules_on_the_numbers() {
    let numbers = [
        -f64::INFINITY,
        -500.0,
        -1.0,
        -1e-300,
        -0.0,
        0.0,
        1e-300,
        1e-9,
        1.0,
        10.0,
        500.0,
        f64::INFINITY,
        f64::NAN,
    ];
    let indices = [i32::MIN, -1, 0, 1, i32::MAX];
    for &x_start in &numbers {
        for &x_end in &numbers {
            for &mass in &numbers {
                for &sigma in &numbers {
                    for &n in &indices {
                        assert_eq!(
                            config(x_start, x_end, mass, n, sigma).verify(),
                            rules(x_start, x_end, mass, n, sigma),
                            "{:?} {:?} {:?} {:?} {:?}",
                            x_start,
                            x_end,
                            mass,
                            n,
                            sigma
                        );
                    }
                }
            }
        }
    }
}

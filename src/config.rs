use vstd::prelude::*;

verus! {

/// Why a board or a run cannot be set up.
#[derive(Clone, Copy, Debug, PartialEq, Eq, Structural)]
pub enum ConfigError {
    /// The grid has no columns.
    ZeroWidth,
    /// The grid has no rows.
    ZeroHeight,
    /// `width * height` does not fit in a `usize`.
    TooLarge,
    /// The given cell states do not number `width * height`.
    SizeMismatch,
    /// The seed probability `numerator / denominator` is not in `[0, 1]`.
    InvalidProbability,
    /// The simulation would never advance.
    ZeroStepInterval,
}

/// The error, if any, for a grid of `width` by `height`.
pub open spec fn dims_error(width: int, height: int) -> Option<ConfigError> {
    if width == 0 {
        Some(ConfigError::ZeroWidth)
    } else if height == 0 {
        Some(ConfigError::ZeroHeight)
    } else if width * height > usize::MAX {
        Some(ConfigError::TooLarge)
    } else {
        None
    }
}

/// Whether `numerator / denominator` is a probability.
pub open spec fn valid_ratio(numerator: int, denominator: int) -> bool {
    0 < denominator && numerator <= denominator
}

/// Checks the dimensions of a grid; `Ok` exactly when `dims_error` finds nothing.
pub fn check_dims(width: usize, height: usize) -> (r: Result<(), ConfigError>)
    ensures
        r is Ok <==> dims_error(width as int, height as int) is None,
        r is Err ==> dims_error(width as int, height as int) == Some(r->Err_0),
{
    if width == 0 {
        Err(ConfigError::ZeroWidth)
    } else if height == 0 {
        Err(ConfigError::ZeroHeight)
    } else if width.checked_mul(height).is_none() {
        Err(ConfigError::TooLarge)
    } else {
        Ok(())
    }
}

/// The parameters of a run: grid size, seed probability
/// `seed_numerator / seed_denominator`, and how many frames pass per step.
#[derive(Clone, Copy, Debug, PartialEq, Eq, Structural)]
pub struct Config {
    pub width: usize,
    pub height: usize,
    pub seed_numerator: u32,
    pub seed_denominator: u32,
    pub step_every: u32,
}

/// The error, if any, for a configuration; checks run in field order.
pub open spec fn config_error(c: Config) -> Option<ConfigError> {
    if dims_error(c.width as int, c.height as int) is Some {
        dims_error(c.width as int, c.height as int)
    } else if !valid_ratio(c.seed_numerator as int, c.seed_denominator as int) {
        Some(ConfigError::InvalidProbability)
    } else if c.step_every == 0 {
        Some(ConfigError::ZeroStepInterval)
    } else {
        None
    }
}

impl Config {
    /// Checks every parameter; `Ok` exactly when `config_error` finds nothing.
    pub fn validate(&self) -> (r: Result<(), ConfigError>)
        ensures
            r is Ok <==> config_error(*self) is None,
            r is Err ==> config_error(*self) == Some(r->Err_0),
    {
        match check_dims(self.width, self.height) {
            Err(e) => Err(e),
            Ok(()) => {
                if self.seed_denominator == 0 || self.seed_numerator > self.seed_denominator {
                    Err(ConfigError::InvalidProbability)
                } else if self.step_every == 0 {
                    Err(ConfigError::ZeroStepInterval)
                } else {
                    Ok(())
                }
            },
        }
    }
}

impl Default for Config {
    /// A 200 by 200 grid seeded at 3 in 10, stepped every 10th frame.
    fn default() -> (r: Config)
        ensures
            r == (Config {
                width: 200,
                height: 200,
                seed_numerator: 3,
                seed_denominator: 10,
                step_every: 10,
            }),
    {
        Config { width: 200, height: 200, seed_numerator: 3, seed_denominator: 10, step_every: 10 }
    }
}

} // verus!

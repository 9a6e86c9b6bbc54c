//! The numbers that tune the engine.

use vstd::prelude::*;
use crate::fixed::{fit, fitted, scale, scaled, Ratio};
use crate::tile_map::NegativeRule;

verus! {

/// The mathematical model of a configuration.
pub ghost struct Settings {
    /// The angular width of the view, in fixed-point radians.
    pub fov: int,
    /// The distance at which a ray gives up.
    pub max_depth: int,
    /// The distance between two samples of a ray.
    pub step_size: int,
    /// The angle turned per second.
    pub turn_speed: int,
    /// The distance moved per second.
    pub move_speed: int,
    /// The tangent of the angle within which a corner of a wall cell marks a
    /// hit as a boundary; `None` where boundaries are not marked.
    pub edges: Option<Ratio>,
    /// The meaning of a negative coordinate.
    pub rule: NegativeRule,
}

/// The tolerance, if there is one, has a denominator.
pub open spec fn is_ratio(edges: Option<Ratio>) -> bool {
    match edges {
        Some(tolerance) => 0 < tolerance.den,
        None => true,
    }
}

impl Settings {
    /// The engine can run with these settings.
    pub open spec fn usable(self) -> bool {
        0 < self.max_depth && 0 < self.step_size && is_ratio(self.edges)
    }
}

/// Why a configuration was not accepted.
#[derive(Clone, Copy, Debug, PartialEq, Eq, Structural)]
pub enum ConfigError {
    /// The maximum depth is not positive.
    DepthNotPositive,
    /// The step size is not positive: a ray would never advance.
    StepNotPositive,
    /// The tolerance of the boundary detection has a denominator of zero.
    ToleranceNotARatio,
}

/// A configuration that the engine can run with: its maximum depth and its
/// step size are positive, and its tolerance, if it has one, is a ratio.
#[derive(Clone, Copy, Debug)]
pub struct Config {
    fov: i64,
    max_depth: i64,
    step_size: i64,
    turn_speed: i64,
    move_speed: i64,
    edges: Option<Ratio>,
    rule: NegativeRule,
}

impl View for Config {
    type V = Settings;

    closed spec fn view(&self) -> Settings {
        Settings {
            fov: self.fov as int,
            max_depth: self.max_depth as int,
            step_size: self.step_size as int,
            turn_speed: self.turn_speed as int,
            move_speed: self.move_speed as int,
            edges: self.edges,
            rule: self.rule,
        }
    }
}

impl Config {
    #[verifier::type_invariant]
    spec fn well_formed(self) -> bool {
        self@.usable()
    }

    /// The configuration with the given numbers. A maximum depth that is not
    /// positive is refused first, then a step size that is not positive, then
    /// a tolerance with a denominator of zero.
    pub fn new(
        fov: i64,
        max_depth: i64,
        step_size: i64,
        turn_speed: i64,
        move_speed: i64,
        edges: Option<Ratio>,
        rule: NegativeRule,
    ) -> (r: Result<Config, ConfigError>)
        ensures
            r is Ok <==> 0 < max_depth && 0 < step_size && is_ratio(edges),
            r == Err::<Config, ConfigError>(ConfigError::DepthNotPositive) <==> max_depth <= 0,
            r == Err::<Config, ConfigError>(ConfigError::StepNotPositive) <==> (0 < max_depth
                && step_size <= 0),
            r == Err::<Config, ConfigError>(ConfigError::ToleranceNotARatio) <==> (0 < max_depth
                && 0 < step_size && !is_ratio(edges)),
            r matches Ok(c) ==> c@.usable() && c@ == (Settings {
                fov: fov as int,
                max_depth: max_depth as int,
                step_size: step_size as int,
                turn_speed: turn_speed as int,
                move_speed: move_speed as int,
                edges,
                rule,
            }),
    {
        if max_depth <= 0 {
            Err(ConfigError::DepthNotPositive)
        } else if step_size <= 0 {
            Err(ConfigError::StepNotPositive)
        } else {
            match edges {
                Some(tolerance) if tolerance.den == 0 => Err(ConfigError::ToleranceNotARatio),
                _ => Ok(Config { fov, max_depth, step_size, turn_speed, move_speed, edges, rule }),
            }
        }
    }

    /// The angular width of the view, in fixed-point radians.
    pub fn fov(&self) -> (r: i64)
        ensures
            r == self@.fov,
    {
        self.fov
    }

    /// The distance at which a ray gives up.
    pub fn max_depth(&self) -> (r: i64)
        ensures
            r == self@.max_depth,
            0 < r,
    {
        proof {
            use_type_invariant(self);
        }
        self.max_depth
    }

    /// The distance between two samples of a ray.
    pub fn step_size(&self) -> (r: i64)
        ensures
            r == self@.step_size,
            0 < r,
    {
        proof {
            use_type_invariant(self);
        }
        self.step_size
    }

    /// The angle turned per second.
    pub fn turn_speed(&self) -> (r: i64)
        ensures
            r == self@.turn_speed,
    {
        self.turn_speed
    }

    /// The distance moved per second.
    pub fn move_speed(&self) -> (r: i64)
        ensures
            r == self@.move_speed,
    {
        self.move_speed
    }

    /// The tolerance of the boundary detection, if it is switched on.
    pub fn edges(&self) -> (r: Option<Ratio>)
        ensures
            r == self@.edges,
            is_ratio(r),
    {
        proof {
            use_type_invariant(self);
        }
        self.edges
    }

    /// The meaning of a negative coordinate.
    pub fn rule(&self) -> (r: NegativeRule)
        ensures
            r == self@.rule,
    {
        self.rule
    }

    /// The angle turned in `elapsed` seconds, rounded down; `None` where it
    /// is no `i64`.
    pub fn turn_delta(&self, elapsed: i64) -> (r: Option<i64>)
        ensures
            r == fitted(scaled(self@.turn_speed, elapsed as int)),
    {
        fit(scale(self.turn_speed, elapsed))
    }

    /// The distance moved in `elapsed` seconds, rounded down; `None` where it
    /// is no `i64`.
    pub fn move_delta(&self, elapsed: i64) -> (r: Option<i64>)
        ensures
            r == fitted(scaled(self@.move_speed, elapsed as int)),
    {
        fit(scale(self.move_speed, elapsed))
    }
}

} // verus!

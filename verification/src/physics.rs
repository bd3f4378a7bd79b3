//! The control side of one tick: which commands are admissible, how the
//! engine follows a command, and what the tick costs in fuel.

use vstd::prelude::*;

verus! {

/// Default largest change of the engine power within one tick.
pub const POWER_STEP: i32 = 1;

/// Default largest engine power.
pub const POWER_MAX: i32 = 4;

/// Default largest absolute tilt angle of a command, in degrees.
pub const ANGLE_LIMIT: i32 = 90;

/// A commanded tilt angle, in whole degrees, and a commanded engine power.
#[derive(Clone, Copy, Debug, PartialEq, Eq, Structural)]
pub struct Thrust {
    pub angle: i32,
    pub power: i32,
}

/// A thrust, seen as what the solver asks of the lander.
pub type Command = Thrust;

impl Thrust {
    pub fn new(angle: i32, power: i32) -> (r: Self)
        ensures
            r == (Thrust { angle, power }),
    {
        Thrust { angle, power }
    }

    /// No tilt, engine off.
    pub fn zero() -> (r: Self)
        ensures
            r == (Thrust { angle: 0, power: 0 }),
    {
        Thrust { angle: 0, power: 0 }
    }
}

impl Default for Thrust {
    fn default() -> (r: Self)
        ensures
            r == (Thrust { angle: 0, power: 0 }),
    {
        Thrust::zero()
    }
}

/// Why a tick could not be computed.
#[derive(Clone, Copy, Debug, PartialEq, Eq, Structural)]
pub enum SimulationError {
    /// The command lies outside the limits of the integrator.
    InvalidThrust(Thrust),
}

/// `value` brought into `lower ..= upper`.
pub open spec fn clamp_spec(value: int, lower: int, upper: int) -> int {
    if value < lower {
        lower
    } else if value > upper {
        upper
    } else {
        value
    }
}

/// Brings `value` into `lower ..= upper`. The bounds must be apart.
pub fn clamp(value: i32, lower: i32, upper: i32) -> (r: i32)
    requires
        lower < upper,
    ensures
        r == clamp_spec(value as int, lower as int, upper as int),
{
    if value < lower {
        lower
    } else if value > upper {
        upper
    } else {
        value
    }
}

/// The power of an engine at `current` that moves towards `commanded` by at
/// most `step`.
pub open spec fn approach(current: int, commanded: int, step: int) -> int {
    current + clamp_spec(commanded - current, -step, step)
}

/// The engine power after a tick: with fuel to spare the engine follows the
/// command, otherwise it is shut down.
pub open spec fn next_power(fuel: int, power: int, commanded: int, step: int) -> int {
    if fuel > commanded {
        approach(power, commanded, step)
    } else {
        0
    }
}

/// The fuel left after burning `power` units of it; the tank does not go
/// below empty.
pub open spec fn next_fuel(fuel: int, power: int) -> int {
    if fuel - power < 0 {
        0
    } else {
        fuel - power
    }
}

/// What one tick does to the engine.
#[derive(Clone, Copy, Debug, PartialEq, Eq, Structural)]
pub struct Throttle {
    /// Whether the lander follows the command at all this tick. When it does
    /// not, its tilt angle stays as it is.
    pub steering: bool,
    /// The engine power during the tick.
    pub power: i32,
    /// The fuel left after the tick.
    pub fuel: i32,
}

/// The limits within which the lander is controlled.
pub struct Physics {
    power_step: i32,
    power_max: i32,
    angle_limit: i32,
}

impl Physics {
    #[verifier::type_invariant]
    spec fn well_formed(self) -> bool {
        self.power_step > 0
    }

    /// Largest change of the engine power within one tick; always positive.
    pub closed spec fn power_step(self) -> int {
        self.power_step as int
    }

    /// Largest engine power that a command may ask for.
    pub closed spec fn power_max(self) -> int {
        self.power_max as int
    }

    /// Largest absolute tilt angle that a command may ask for.
    pub closed spec fn angle_limit(self) -> int {
        self.angle_limit as int
    }

    /// Whether `thrust` is a command that the integrator accepts.
    pub open spec fn admits(self, thrust: Thrust) -> bool {
        &&& -self.angle_limit() <= thrust.angle <= self.angle_limit()
        &&& 0 <= thrust.power <= self.power_max()
    }

    pub fn with_power_step(self, power_step: i32) -> (r: Self)
        requires
            power_step > 0,
        ensures
            r.power_step() == power_step,
            r.power_max() == self.power_max(),
            r.angle_limit() == self.angle_limit(),
    {
        Physics { power_step, power_max: self.power_max, angle_limit: self.angle_limit }
    }

    pub fn with_power_max(self, power_max: i32) -> (r: Self)
        ensures
            r.power_step() == self.power_step(),
            r.power_max() == power_max,
            r.angle_limit() == self.angle_limit(),
    {
        proof {
            use_type_invariant(&self);
        }
        Physics { power_step: self.power_step, power_max, angle_limit: self.angle_limit }
    }

    pub fn with_angle_limit(self, angle_limit: i32) -> (r: Self)
        ensures
            r.power_step() == self.power_step(),
            r.power_max() == self.power_max(),
            r.angle_limit() == angle_limit,
    {
        proof {
            use_type_invariant(&self);
        }
        Physics { power_step: self.power_step, power_max: self.power_max, angle_limit }
    }

    /// Whether `thrust` lies within the limits.
    pub fn validate_thrust(&self, thrust: &Thrust) -> (ok: bool)
        ensures
            ok == self.admits(*thrust),
    {
        let angle: i64 = thrust.angle as i64;
        let limit: i64 = self.angle_limit as i64;
        -limit <= angle && angle <= limit && thrust.power <= self.power_max && thrust.power >= 0
    }

    /// One tick of the engine: a command outside the limits is refused;
    /// otherwise the power follows the command as far as one step allows, or
    /// drops to zero when the fuel does not exceed the commanded power, and the
    /// new power is what the tick burns.
    pub fn iterate(&self, fuel: i32, power: i32, cmd: Thrust) -> (r: Result<Throttle, SimulationError>)
        requires
            self.admits(cmd) ==> fuel - next_power(fuel as int, power as int, cmd.power as int, self.power_step()) <= i32::MAX,
        ensures
            !self.admits(cmd) ==> r == Err::<Throttle, SimulationError>(SimulationError::InvalidThrust(cmd)),
            self.admits(cmd) ==> r == Ok::<Throttle, SimulationError>(
                Throttle {
                    steering: fuel > cmd.power,
                    power: next_power(fuel as int, power as int, cmd.power as int, self.power_step()) as i32,
                    fuel: next_fuel(
                        fuel as int,
                        next_power(fuel as int, power as int, cmd.power as int, self.power_step()),
                    ) as i32,
                },
            ),
    {
        proof {
            use_type_invariant(self);
        }
        if !self.validate_thrust(&cmd) {
            return Err(SimulationError::InvalidThrust(cmd));
        }
        let steering: bool = fuel > cmd.power;
        let new_power: i32 = if steering {
            let gap: i64 = cmd.power as i64 - power as i64;
            let step: i64 = self.power_step as i64;
            let moved: i64 = if gap < -step {
                -step
            } else if gap > step {
                step
            } else {
                gap
            };
            (power as i64 + moved) as i32
        } else {
            0
        };
        let left: i64 = fuel as i64 - new_power as i64;
        let new_fuel: i32 = if left < 0 { 0 } else { left as i32 };
        Ok(Throttle { steering, power: new_power, fuel: new_fuel })
    }
}

impl Default for Physics {
    fn default() -> (r: Self)
        ensures
            r.power_step() == POWER_STEP,
            r.power_max() == POWER_MAX,
            r.angle_limit() == ANGLE_LIMIT,
    {
        Physics { power_step: POWER_STEP, power_max: POWER_MAX, angle_limit: ANGLE_LIMIT }
    }
}

} // verus!

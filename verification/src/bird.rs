//! The bird's physics state and its per-tick integration rule.

use vstd::prelude::*;
use crate::constants::{
    BIRD_START_X_NANO, BIRD_START_Y_NANO, FLAP_VELOCITY_MILLI, GRAVITY_MILLI_PER_US,
    TILT_CLAMP_MILLI,
};

verus! {

/// Physics state of the bird. The vertical velocity is the single source
/// of truth: it drives both the vertical displacement and the visual
/// tilt. The bird never moves horizontally; the world scrolls instead.
#[derive(Clone, Copy, Debug, PartialEq, Eq, Structural)]
pub struct BirdBody {
    /// Horizontal centre, nanopixels. Constant while the bird lives.
    pub pos_x: i64,
    /// Vertical centre, nanopixels.
    pub pos_y: i64,
    /// Vertical velocity, millipixels per second (positive is up).
    pub velocity_y: i64,
    /// Visual tilt numerator: the tilt angle is
    /// rotation / 3_000_000 * pi radians. Always `tilt_of(velocity_y)`.
    pub rotation: i64,
}

/// Mathematical image of `BirdBody`, over unbounded integers.
pub ghost struct BirdModel {
    pub pos_x: int,
    pub pos_y: int,
    pub velocity_y: int,
    pub rotation: int,
}

impl View for BirdBody {
    type V = BirdModel;

    open spec fn view(&self) -> BirdModel {
        BirdModel {
            pos_x: self.pos_x as int,
            pos_y: self.pos_y as int,
            velocity_y: self.velocity_y as int,
            rotation: self.rotation as int,
        }
    }
}

/// Velocity after one tick of `dt` microseconds: a flap overwrites the
/// velocity with the fixed flap impulse; otherwise gravity subtracts
/// `GRAVITY_MILLI_PER_US * dt`.
pub open spec fn vel_after(v: int, dt: int, flap: bool) -> int {
    if flap {
        FLAP_VELOCITY_MILLI as int
    } else {
        v - (GRAVITY_MILLI_PER_US as int) * dt
    }
}

/// Vertical position after one tick, integrated with the new velocity.
/// millipixels/second times microseconds is exactly nanopixels.
pub open spec fn pos_after(y: int, new_v: int, dt: int) -> int {
    y + new_v * dt
}

/// The visual tilt numerator as a function of the velocity alone:
/// the velocity, saturated at +/- TILT_CLAMP_MILLI.
pub open spec fn tilt_of(v: int) -> int {
    if v < -(TILT_CLAMP_MILLI as int) {
        -(TILT_CLAMP_MILLI as int)
    } else if v > TILT_CLAMP_MILLI as int {
        TILT_CLAMP_MILLI as int
    } else {
        v
    }
}

/// The whole bird after one Playing tick.
pub open spec fn bird_after(b: BirdModel, dt: int, flap: bool) -> BirdModel {
    let new_v = vel_after(b.velocity_y, dt, flap);
    BirdModel {
        pos_x: b.pos_x,
        pos_y: pos_after(b.pos_y, new_v, dt),
        velocity_y: new_v,
        rotation: tilt_of(new_v),
    }
}

/// The canonical pose the bird is recreated in on entering Playing.
pub open spec fn start_bird() -> BirdModel {
    BirdModel {
        pos_x: BIRD_START_X_NANO as int,
        pos_y: BIRD_START_Y_NANO as int,
        velocity_y: 0,
        rotation: 0,
    }
}

/// Executable tilt rule, exposed so a presentation layer can recompute
/// the tilt for any velocity it likes.
pub fn tilt_of_velocity(v: i64) -> (r: i64)
    ensures
        r as int == tilt_of(v as int),
{
    if v < -TILT_CLAMP_MILLI {
        -TILT_CLAMP_MILLI
    } else if v > TILT_CLAMP_MILLI {
        TILT_CLAMP_MILLI
    } else {
        v
    }
}

/// Gravity integration is linear in the elapsed time: two consecutive
/// no-flap updates over dt1 and then dt2 land on the same velocity as a
/// single update over dt1 + dt2, so the rule is independent of
/// sub-stepping.
pub proof fn lemma_gravity_substep_independent(v0: int, dt1: int, dt2: int)
    ensures
        vel_after(vel_after(v0, dt1, false), dt2, false) == vel_after(v0, dt1 + dt2, false),
        vel_after(v0, dt1, false) == v0 - (GRAVITY_MILLI_PER_US as int) * dt1,
{
}

/// A flap overwrites the velocity with the fixed flap impulse, whatever
/// the prior velocity and however large the tick: flapping is an
/// idempotent overwrite, not an addition.
pub proof fn lemma_flap_overwrites(v1: int, v2: int, dt1: int, dt2: int)
    ensures
        vel_after(v1, dt1, true) == vel_after(v2, dt2, true),
        vel_after(v1, dt1, true) == FLAP_VELOCITY_MILLI as int,
{
}

} // verus!

//! The fixed rule constants of the game, in the crate's fixed-point units
//! (time in microseconds, positions in nanopixels, velocities in
//! millipixels per second). Screen coordinates have the origin at the
//! screen centre; the screen is 288 x 512 pixels.

use vstd::prelude::*;

verus! {

/// Downward acceleration, 1000 px/s^2, expressed as the velocity lost per
/// microsecond: 1000 px/s^2 = 1 (milli-px/s) per microsecond.
pub const GRAVITY_MILLI_PER_US: i64 = 1;

/// Velocity set by a flap, 400 px/s upward.
pub const FLAP_VELOCITY_MILLI: i64 = 400_000;

/// World scroll speed, 100 px/s, as nanopixels per microsecond.
pub const SCROLL_NANO_PER_US: i64 = 100_000;

/// The spawn timer fires every 2 seconds of Playing time.
pub const SPAWN_INTERVAL_US: u64 = 2_000_000;

/// Gap anchors are drawn uniformly from [0, GAP_ANCHOR_UPPER_NANO):
/// half screen height (256 px) minus the gap height (125 px).
pub const GAP_ANCHOR_UPPER_NANO: i64 = 131_000_000_000;

/// A Top obstacle sits this far (125 px, the gap height) above its anchor.
pub const GAP_HEIGHT_NANO: i64 = 125_000_000_000;

/// A Bottom obstacle sits this far (320 px, the pipe body height) below
/// its anchor.
pub const PIPE_DROP_NANO: i64 = 320_000_000_000;

/// Obstacles spawn at x = 180 px, just off the right screen edge.
pub const SPAWN_X_NANO: i64 = 180_000_000_000;

/// An obstacle is despawned once its x falls strictly below -200 px.
pub const DESPAWN_X_NANO: i64 = -200_000_000_000;

/// A floor segment wraps to +144 px once its x falls strictly below -144 px.
pub const FLOOR_WRAP_AT_NANO: i64 = -144_000_000_000;
pub const FLOOR_WRAP_TO_NANO: i64 = 144_000_000_000;

/// Initial x of the two floor segments.
pub const FLOOR_START_0_NANO: i64 = 0;
pub const FLOOR_START_1_NANO: i64 = 144_000_000_000;

/// Ceiling collision: bird centre above 244 px (256 minus the bird's
/// 12 px half height).
pub const CEILING_Y_NANO: i64 = 244_000_000_000;

/// Floor collision: bird centre below -188 px (-256 plus the floor
/// sprite's 56 px half height plus the bird's 12 px half height).
pub const FLOOR_Y_NANO: i64 = -188_000_000_000;

/// The bird is recreated at (-50 px, 0 px) with velocity 0 on entering
/// Playing.
pub const BIRD_START_X_NANO: i64 = -50_000_000_000;
pub const BIRD_START_Y_NANO: i64 = 0;

/// Half the sum of the bird's (17 px) and a pipe's (52 px) widths: the
/// boxes overlap on x iff the centres are strictly closer than this.
pub const OVERLAP_X_NANO: i64 = 34_500_000_000;

/// Half the sum of the bird's (12 px) and a pipe's (320 px) heights.
pub const OVERLAP_Y_NANO: i64 = 166_000_000_000;

/// The visual tilt is velocity-driven and saturates: the tilt angle is
/// rotation / 3_000_000 * pi radians, where rotation is the velocity
/// clamped to +/- TILT_CLAMP_MILLI (+/- half a turn's worth).
pub const TILT_CLAMP_MILLI: i64 = 1_500_000;

/// Scoreboard value on entering Playing; it reads "no pair spawned yet"
/// and is displayed as 0.
pub const SCORE_SENTINEL: i64 = -1;

/// Largest tick delta accepted (10 s). Larger deltas would let the
/// fixed-point products of one tick leave the i64 range.
pub const MAX_DELTA_US: u64 = 10_000_000;

/// Most spawn timer firings a single tick can see:
/// (SPAWN_INTERVAL_US - 1 + MAX_DELTA_US) / SPAWN_INTERVAL_US.
pub const MAX_SPAWNS_PER_TICK: u64 = 5;

/// While the game is Playing the bird's velocity magnitude stays below
/// the screen's collision corridor height (CEILING_Y - FLOOR_Y in
/// nanopixels): any faster bird leaves the corridor within one tick and
/// the game ends.
pub const VELOCITY_BOUND_MILLI: i64 = 432_000_000_000;

} // verus!

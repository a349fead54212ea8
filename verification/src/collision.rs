//! The axis-aligned box overlap test between the bird and an obstacle,
//! and the screen boundary test.

use vstd::prelude::*;
use crate::constants::{
    CEILING_Y_NANO, FLOOR_Y_NANO, GAP_HEIGHT_NANO, OVERLAP_X_NANO, OVERLAP_Y_NANO, PIPE_DROP_NANO,
};
use crate::bird::BirdModel;
use crate::obstacle::{Obstacle, ObstacleKind, ObstacleModel, obstacle_y};

verus! {

/// Absolute value over mathematical integers.
pub open spec fn abs_int(x: int) -> int {
    if x < 0 {
        -x
    } else {
        x
    }
}

/// Two axis-aligned boxes overlap iff on each axis the centres are
/// strictly closer than half the sum of the extents. For the bird and a
/// pipe those half-sums are the fixed `OVERLAP_X_NANO` / `OVERLAP_Y_NANO`.
pub open spec fn boxes_overlap(bird_x: int, bird_y: int, obs_x: int, obs_y: int) -> bool {
    abs_int(bird_x - obs_x) < OVERLAP_X_NANO as int && abs_int(bird_y - obs_y)
        < OVERLAP_Y_NANO as int
}

/// Whether the bird's box overlaps one obstacle's box; each half of a
/// pair is tested independently at its own derived centre.
pub open spec fn hits_obstacle(b: BirdModel, o: ObstacleModel) -> bool {
    boxes_overlap(b.pos_x, b.pos_y, o.position_x, obstacle_y(o))
}

/// Whether the bird is outside the vertical corridor: above the ceiling
/// threshold or below the floor threshold.
pub open spec fn hits_boundary(bird_y: int) -> bool {
    bird_y > CEILING_Y_NANO as int || bird_y < FLOOR_Y_NANO as int
}

/// A collision this tick: the boundary, or any live obstacle.
pub open spec fn any_collision(b: BirdModel, obs: Seq<ObstacleModel>) -> bool {
    hits_boundary(b.pos_y) || exists|i: int| 0 <= i < obs.len() && hits_obstacle(b, #[trigger] obs[i])
}

/// Executable overlap test between the bird's centre and one obstacle.
/// The coordinate bounds keep the differences inside i64; every
/// coordinate a game ever holds is far inside them.
pub fn collide(bird_x: i64, bird_y: i64, obstacle: &Obstacle) -> (r: bool)
    requires
        -1_000_000_000_000_000 <= bird_x <= 1_000_000_000_000_000,
        -9_000_000_000_000_000_000 <= bird_y <= 9_000_000_000_000_000_000,
        -1_000_000_000_000_000 <= obstacle.position_x <= 1_000_000_000_000_000,
        -1_000_000_000_000_000 <= obstacle.gap_center_y <= 1_000_000_000_000_000,
    ensures
        r == hits_obstacle(
            BirdModel {
                pos_x: bird_x as int,
                pos_y: bird_y as int,
                velocity_y: 0,
                rotation: 0,
            },
            obstacle@,
        ),
{
    let obs_y: i64 = match obstacle.kind {
        ObstacleKind::Top => obstacle.gap_center_y + GAP_HEIGHT_NANO,
        ObstacleKind::Bottom => obstacle.gap_center_y - PIPE_DROP_NANO,
    };
    let dx: i64 = if bird_x >= obstacle.position_x {
        bird_x - obstacle.position_x
    } else {
        obstacle.position_x - bird_x
    };
    if dx >= OVERLAP_X_NANO {
        return false;
    }
    if bird_y >= obs_y {
        bird_y - obs_y < OVERLAP_Y_NANO
    } else {
        obs_y - bird_y < OVERLAP_Y_NANO
    }
}

} // verus!

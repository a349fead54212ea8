//! Exact-value checks of the small pure rules: the velocity-driven
//! tilt and the floor wrap threshold.

use flappy_core::bird::tilt_of_velocity;
use flappy_core::{Game, GameState, Inputs};

fn idle() -> Inputs {
    Inputs { flap_pressed: false, start_pressed: false }
}

#[test]
fn tilt_follows_velocity_until_it_saturates() {
    // Within the clamp the tilt numerator is the velocity itself.
    assert_eq!(tilt_of_velocity(0), 0);
    assert_eq!(tilt_of_velocity(123_456), 123_456);
    assert_eq!(tilt_of_velocity(-400_000), -400_000);
    assert_eq!(tilt_of_velocity(1_500_000), 1_500_000);
    assert_eq!(tilt_of_velocity(-1_500_000), -1_500_000);
    // Beyond it the tilt saturates at half a turn's worth.
    assert_eq!(tilt_of_velocity(1_500_001), 1_500_000);
    assert_eq!(tilt_of_velocity(i64::MAX), 1_500_000);
    assert_eq!(tilt_of_velocity(-2_000_000), -1_500_000);
    assert_eq!(tilt_of_velocity(i64::MIN), -1_500_000);
}

#[test]
fn floor_wraps_only_strictly_past_threshold() {
    let mut game = Game::new();
    // 1.44 s of 100 px/s scroll puts the first segment at exactly
    // -144 px: at the threshold, it does not wrap yet.
    game.tick_with_gaps(1_440_000, idle(), &vec![]);
    assert_eq!(game.current_state(), GameState::Menu);
    assert_eq!(game.floor_segment_list()[0], -144_000_000_000);
    // One more microsecond pushes it strictly past, and it wraps to
    // exactly +144 px.
    game.tick_with_gaps(1, idle(), &vec![]);
    assert_eq!(game.floor_segment_list()[0], 144_000_000_000);
}

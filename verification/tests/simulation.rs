//! End-to-end scenarios driven through the public API, with exact
//! expected values in the crate's fixed-point units (microseconds,
//! nanopixels, millipixels per second).

use flappy_core::{Event, Game, GameState, Inputs, Obstacle, ObstacleKind};

fn idle() -> Inputs {
    Inputs { flap_pressed: false, start_pressed: false }
}

fn start() -> Inputs {
    Inputs { flap_pressed: false, start_pressed: true }
}

fn flap() -> Inputs {
    Inputs { flap_pressed: true, start_pressed: false }
}

/// One deterministic tick: sizes the gap-anchor vector from
/// `pending_firings`, every firing using the same `anchor`.
fn det_tick(game: &mut Game, dt: u64, inputs: Inputs, anchor: i64) -> Vec<Event> {
    let n = game.pending_firings(dt);
    let gaps = vec![anchor; n as usize];
    game.tick_with_gaps(dt, inputs, &gaps)
}

#[test]
fn initial_state() {
    let game = Game::new();
    assert_eq!(game.current_state(), GameState::Menu);
    assert_eq!(game.current_score(), -1);
    assert!(game.bird_pose().is_none());
    assert!(game.obstacle_list().is_empty());
    assert_eq!(game.floor_segment_list(), vec![0, 144_000_000_000]);
}

#[test]
fn start_enters_playing_with_fresh_run() {
    let mut game = Game::new();
    let events = det_tick(&mut game, 0, start(), 0);
    assert_eq!(game.current_state(), GameState::Playing);
    assert_eq!(game.current_score(), -1);
    assert!(game.obstacle_list().is_empty());
    assert_eq!(game.bird_pose(), Some((-50_000_000_000, 0, 0)));
    let bird = game.bird_body().unwrap();
    assert_eq!(bird.velocity_y, 0);
    assert_eq!(
        events,
        vec![
            Event::ScoreChanged { new_score: -1 },
            Event::StateChanged { from: GameState::Menu, to: GameState::Playing },
        ]
    );
}

#[test]
fn gravity_tick_from_rest() {
    let mut game = Game::new();
    det_tick(&mut game, 0, start(), 0);
    let events = det_tick(&mut game, 100_000, idle(), 0);
    // 0.1 s of 1000 px/s^2 gravity: velocity -100 px/s, and the
    // position integrates with the new velocity: -10 px.
    let bird = game.bird_body().unwrap();
    assert_eq!(bird.velocity_y, -100_000);
    assert_eq!(bird.pos_y, -10_000_000_000);
    assert_eq!(bird.rotation, -100_000);
    assert!(events.is_empty());
}

#[test]
fn gravity_is_linear_in_elapsed_time() {
    let mut one = Game::new();
    det_tick(&mut one, 0, start(), 0);
    det_tick(&mut one, 100_000, idle(), 0);

    let mut two = Game::new();
    det_tick(&mut two, 0, start(), 0);
    det_tick(&mut two, 50_000, idle(), 0);
    det_tick(&mut two, 50_000, idle(), 0);

    // The velocity is linear in elapsed time, independent of
    // sub-stepping; the explicit-Euler position is not, and must not
    // be conflated with it.
    assert_eq!(one.bird_body().unwrap().velocity_y, -100_000);
    assert_eq!(two.bird_body().unwrap().velocity_y, -100_000);
}

#[test]
fn flap_overwrites_any_velocity() {
    let mut game = Game::new();
    det_tick(&mut game, 0, start(), 0);
    det_tick(&mut game, 100_000, idle(), 0);
    assert_eq!(game.bird_body().unwrap().velocity_y, -100_000);
    // A zero-length flap tick overwrites the velocity without moving.
    det_tick(&mut game, 0, flap(), 0);
    assert_eq!(game.bird_body().unwrap().velocity_y, 400_000);
    assert_eq!(game.bird_body().unwrap().pos_y, -10_000_000_000);
    // Flapping again is idempotent, not additive.
    det_tick(&mut game, 0, flap(), 0);
    assert_eq!(game.bird_body().unwrap().velocity_y, 400_000);
}

#[test]
fn menu_scrolls_and_wraps_floor_only() {
    let mut game = Game::new();
    let events = det_tick(&mut game, 1_000_000, idle(), 0);
    assert!(events.is_empty());
    assert_eq!(game.current_state(), GameState::Menu);
    assert!(game.bird_pose().is_none());
    assert_eq!(game.floor_segment_list(), vec![-100_000_000_000, 44_000_000_000]);
    // The next second pushes the first segment past -144 px; it wraps
    // back to exactly +144 px.
    det_tick(&mut game, 1_000_000, idle(), 0);
    assert_eq!(game.floor_segment_list(), vec![144_000_000_000, -56_000_000_000]);
}

#[test]
fn falling_bird_hits_floor_and_game_ends_same_tick() {
    let mut game = Game::new();
    det_tick(&mut game, 0, start(), 0);
    // One 2 s tick: the spawn timer fires once (score -1 -> 0) and the
    // unflapped bird falls 4000 px, far past the floor threshold: the
    // same tick must land on GameOver and destroy the bird.
    let events = det_tick(&mut game, 2_000_000, idle(), 0);
    assert_eq!(game.current_state(), GameState::GameOver);
    assert!(game.bird_pose().is_none());
    assert_eq!(game.current_score(), 0);
    assert_eq!(game.obstacle_list().len(), 2);
    assert_eq!(
        events,
        vec![
            Event::ScoreChanged { new_score: 0 },
            Event::ObstacleSpawned {
                id: 0,
                position_x: 180_000_000_000,
                position_y: 125_000_000_000,
            },
            Event::ObstacleSpawned {
                id: 1,
                position_x: 180_000_000_000,
                position_y: -320_000_000_000,
            },
            Event::StateChanged { from: GameState::Playing, to: GameState::GameOver },
        ]
    );
}

#[test]
fn game_over_runs_nothing_until_start() {
    let mut game = Game::new();
    det_tick(&mut game, 0, start(), 0);
    det_tick(&mut game, 2_000_000, idle(), 0);
    assert_eq!(game.current_state(), GameState::GameOver);
    let floor_before = game.floor_segment_list();
    let obstacles_before = game.obstacle_list();
    // Ticks without a start input change nothing: no scroll, no timer,
    // no score, no events.
    let events = det_tick(&mut game, 3_000_000, flap(), 0);
    assert!(events.is_empty());
    assert_eq!(game.current_state(), GameState::GameOver);
    assert_eq!(game.floor_segment_list(), floor_before);
    assert_eq!(game.obstacle_list(), obstacles_before);
    assert_eq!(game.current_score(), 0);
}

#[test]
fn spawned_pair_shares_x_and_anchor() {
    let mut game = Game::new();
    det_tick(&mut game, 0, start(), 0);
    det_tick(&mut game, 2_000_000, idle(), 77_000_000_000);
    let obstacles = game.obstacle_list();
    assert_eq!(obstacles.len(), 2);
    let top = &obstacles[0];
    let bottom = &obstacles[1];
    assert_eq!(top.kind, ObstacleKind::Top);
    assert_eq!(bottom.kind, ObstacleKind::Bottom);
    assert_eq!(top.id, 0);
    assert_eq!(bottom.id, 1);
    assert_eq!(top.position_x, 180_000_000_000);
    assert_eq!(bottom.position_x, 180_000_000_000);
    assert_eq!(top.gap_center_y, 77_000_000_000);
    assert_eq!(bottom.gap_center_y, 77_000_000_000);
    assert_eq!(top.position_y(), 77_000_000_000 + 125_000_000_000);
    assert_eq!(bottom.position_y(), 77_000_000_000 - 320_000_000_000);
}

#[test]
fn restart_clears_leftovers_and_resets() {
    let mut game = Game::new();
    det_tick(&mut game, 0, start(), 0);
    det_tick(&mut game, 2_000_000, idle(), 0);
    assert_eq!(game.current_state(), GameState::GameOver);
    let events = det_tick(&mut game, 0, start(), 0);
    assert_eq!(game.current_state(), GameState::Playing);
    assert_eq!(game.current_score(), -1);
    assert!(game.obstacle_list().is_empty());
    assert_eq!(game.bird_pose(), Some((-50_000_000_000, 0, 0)));
    assert_eq!(
        events,
        vec![
            Event::ObstacleDespawned { id: 0 },
            Event::ObstacleDespawned { id: 1 },
            Event::ScoreChanged { new_score: -1 },
            Event::StateChanged { from: GameState::GameOver, to: GameState::Playing },
        ]
    );
}

#[test]
fn start_while_playing_is_ignored() {
    let mut game = Game::new();
    det_tick(&mut game, 0, start(), 0);
    let pose = game.bird_pose();
    // Two consecutive start presses while already Playing: no
    // transition, no reset, no events.
    let first = det_tick(&mut game, 0, start(), 0);
    let second = det_tick(&mut game, 0, start(), 0);
    assert!(first.is_empty());
    assert!(second.is_empty());
    assert_eq!(game.current_state(), GameState::Playing);
    assert_eq!(game.current_score(), -1);
    assert_eq!(game.bird_pose(), pose);
}

#[test]
fn large_tick_fires_timer_once_per_interval() {
    let mut game = Game::new();
    det_tick(&mut game, 0, start(), 0);
    // A single 10 s tick covers five spawn intervals: five firings,
    // each with its own pair and its own score move — no coalescing.
    let gaps: Vec<i64> = vec![0, 10_000_000_000, 20_000_000_000, 30_000_000_000, 130_999_999_999];
    let events = game.tick_with_gaps(10_000_000, idle(), &gaps);
    assert_eq!(game.current_score(), 4);
    let obstacles = game.obstacle_list();
    assert_eq!(obstacles.len(), 10);
    for (index, obstacle) in obstacles.iter().enumerate() {
        assert_eq!(obstacle.id, index as u64);
        assert_eq!(obstacle.position_x, 180_000_000_000);
        assert_eq!(obstacle.gap_center_y, gaps[index / 2]);
    }
    // 5 firings x (score move + two spawns), then the boundary
    // collision of the long fall ends the run in the same tick.
    assert_eq!(events.len(), 16);
    for firing in 0..5u64 {
        match events[3 * firing as usize] {
            Event::ScoreChanged { new_score } => assert_eq!(new_score, firing as i64),
            _ => panic!("expected a score event"),
        }
    }
    assert_eq!(
        events[15],
        Event::StateChanged { from: GameState::Playing, to: GameState::GameOver }
    );
    assert_eq!(game.current_state(), GameState::GameOver);
}

/// Flies the hover pattern: a zero-length flap resets the velocity to
/// +400 px/s, then 79 moving ticks of 10 ms let it run down to
/// -390 px/s; the bird's height returns to exactly its cycle start, and
/// stays within [0, 78] px the whole time.
fn hover<F: FnMut(&Game, u64, &[Event])>(
    game: &mut Game,
    anchor: i64,
    until: u64,
    mut observe: F,
) {
    det_tick(game, 0, flap(), anchor);
    let mut elapsed: u64 = 0;
    let mut moving: u64 = 0;
    while elapsed < until && game.current_state() == GameState::Playing {
        let events = det_tick(game, 10_000, idle(), anchor);
        elapsed += 10_000;
        moving += 1;
        observe(game, elapsed, &events);
        if game.current_state() == GameState::Playing && moving % 79 == 0 {
            det_tick(game, 0, flap(), anchor);
        }
    }
}

#[test]
fn obstacle_despawns_just_past_threshold() {
    let mut game = Game::new();
    det_tick(&mut game, 0, start(), 0);
    // Anchor 125 px: the pipes sit clear of the hover corridor, so the
    // bird survives the whole flight.
    hover(&mut game, 125_000_000_000, 5_800_000, |g, _, _| {
        assert_eq!(g.current_state(), GameState::Playing);
    });
    // After 5.8 s the first pair, spawned at 2 s at x = 180 px, sits at
    // exactly -200 px: at the threshold, still alive.
    let obstacles = game.obstacle_list();
    assert_eq!(obstacles.len(), 4);
    assert_eq!(obstacles[0].position_x, -200_000_000_000);
    assert_eq!(game.current_score(), 1);
    // Ten more microseconds put it at -200.001 px, strictly past the
    // threshold: both halves despawn and leave the list.
    let events = det_tick(&mut game, 10, idle(), 0);
    assert_eq!(
        events,
        vec![Event::ObstacleDespawned { id: 0 }, Event::ObstacleDespawned { id: 1 }]
    );
    let remaining: Vec<Obstacle> = game.obstacle_list();
    assert_eq!(remaining.len(), 2);
    assert_eq!(remaining[0].id, 2);
    assert_eq!(remaining[1].id, 3);
    assert_eq!(game.current_state(), GameState::Playing);
}

#[test]
fn pipe_collision_ends_run_on_contact() {
    let mut game = Game::new();
    det_tick(&mut game, 0, start(), 0);
    // Anchor 0: the top pipe's body reaches down into the hover
    // corridor, so the run must end the moment the boxes first
    // overlap: the pipe centre reaches -16 px (|dx| = 34 < 34.5)
    // at 1.96 s after its 2 s spawn.
    let mut ended_at: u64 = 0;
    hover(&mut game, 0, 10_000_000, |g, elapsed, events| {
        if g.current_state() == GameState::GameOver && ended_at == 0 {
            ended_at = elapsed;
            assert_eq!(
                events.last(),
                Some(&Event::StateChanged {
                    from: GameState::Playing,
                    to: GameState::GameOver,
                })
            );
        }
    });
    assert_eq!(game.current_state(), GameState::GameOver);
    assert_eq!(ended_at, 3_960_000);
    assert!(game.bird_pose().is_none());
}

#[test]
fn ceiling_collision_ends_run() {
    let mut game = Game::new();
    det_tick(&mut game, 0, start(), 0);
    // Each 0.1 s flap tick rises exactly 40 px. Six land on 240 px,
    // still under the 244 px ceiling threshold; the seventh crosses it.
    for _ in 0..6 {
        det_tick(&mut game, 100_000, flap(), 0);
        assert_eq!(game.current_state(), GameState::Playing);
    }
    assert_eq!(game.bird_body().unwrap().pos_y, 240_000_000_000);
    let events = det_tick(&mut game, 100_000, flap(), 0);
    assert_eq!(game.current_state(), GameState::GameOver);
    assert!(game.bird_pose().is_none());
    assert_eq!(
        events,
        vec![Event::StateChanged { from: GameState::Playing, to: GameState::GameOver }]
    );
}

#[test]
fn random_tick_draws_anchor_in_range() {
    // Through the real random draw: every spawned pair's anchor lies
    // in [0, 131 px), and the pair shape holds whatever was drawn.
    for _ in 0..32 {
        let mut game = Game::new();
        game.tick(0, start());
        game.tick(2_000_000, flap());
        let obstacles = game.obstacle_list();
        assert_eq!(obstacles.len(), 2);
        assert!(obstacles[0].gap_center_y >= 0);
        assert!(obstacles[0].gap_center_y < 131_000_000_000);
        assert_eq!(obstacles[0].gap_center_y, obstacles[1].gap_center_y);
        assert_eq!(obstacles[0].position_x, 180_000_000_000);
        assert_eq!(obstacles[1].position_x, 180_000_000_000);
    }
}

#[test]
fn score_is_monotone_while_playing() {
    let mut game = Game::new();
    det_tick(&mut game, 0, start(), 0);
    let mut last = game.current_score();
    let mut fired = 0u32;
    hover(&mut game, 125_000_000_000, 9_000_000, |g, _, events| {
        let score = g.current_score();
        assert!(score >= last);
        for event in events {
            if let Event::ScoreChanged { new_score } = event {
                assert_eq!(*new_score, last + 1);
                fired += 1;
            }
        }
        last = score;
    });
    // 9 s of Playing crosses the 2 s interval four times.
    assert_eq!(fired, 4);
    assert_eq!(game.current_score(), 3);
}

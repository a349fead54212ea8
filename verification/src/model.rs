//! The mathematical model of a whole game and of one tick. The
//! executable `Game::tick_with_gaps` is proved to land exactly on
//! `spec_step`, so every law of the simulation is a statement about the
//! functions in this module.

use vstd::prelude::*;
use crate::constants::{
    BIRD_START_X_NANO, CEILING_Y_NANO, DESPAWN_X_NANO, FLOOR_WRAP_AT_NANO, FLOOR_WRAP_TO_NANO,
    FLOOR_Y_NANO, GAP_HEIGHT_NANO, PIPE_DROP_NANO, SCORE_SENTINEL, SCROLL_NANO_PER_US,
    SPAWN_INTERVAL_US, SPAWN_X_NANO, VELOCITY_BOUND_MILLI,
};
use crate::state::GameState;
use crate::bird::{BirdModel, bird_after, start_bird, tilt_of};
use crate::obstacle::{
    ObstacleModel, gap_in_range, scroll_one, scrolled_obstacles, spawned_obstacles, survives,
};
use crate::collision::any_collision;
use crate::events::EventModel;

verus! {

/// Mathematical image of a whole `Game`.
#[verifier::ext_equal]
pub ghost struct GameModel {
    pub state: GameState,
    /// Present exactly while Playing.
    pub bird: Option<BirdModel>,
    /// The live obstacles, in spawn order.
    pub obstacles: Seq<ObstacleModel>,
    /// The two tiled floor segments' x positions, nanopixels.
    pub floor_x0: int,
    pub floor_x1: int,
    /// The scoreboard; the sentinel -1 until the first pair has spawned.
    pub score: int,
    /// Playing time accumulated toward the next spawn firing, microseconds.
    pub spawn_acc: int,
    /// The id the next spawned obstacle will take.
    pub next_id: int,
}

/// What one tick produces: the next game and the observable events, in
/// order.
#[verifier::ext_equal]
pub ghost struct StepResult {
    pub game: GameModel,
    pub events: Seq<EventModel>,
}

/// Well-formedness of a bird while it lives: it sits at the fixed
/// horizontal start, inside the vertical collision corridor (a bird
/// outside it would have ended the game on the tick that put it there),
/// its speed is below the corridor height per second (a faster bird
/// cannot have survived its own last move), and its tilt is the pure
/// function of its velocity.
pub open spec fn bird_wf(b: BirdModel) -> bool {
    &&& b.pos_x == BIRD_START_X_NANO as int
    &&& FLOOR_Y_NANO as int <= b.pos_y <= CEILING_Y_NANO as int
    &&& -(VELOCITY_BOUND_MILLI as int) <= b.velocity_y <= VELOCITY_BOUND_MILLI as int
    &&& b.rotation == tilt_of(b.velocity_y)
}

/// Well-formedness of one live obstacle: id already handed out, x
/// between the despawn threshold and the spawn point, anchor in the
/// sampling range.
pub open spec fn obstacle_wf(o: ObstacleModel, next_id: int) -> bool {
    &&& 0 <= o.id < next_id
    &&& DESPAWN_X_NANO as int <= o.position_x <= SPAWN_X_NANO as int
    &&& gap_in_range(o.gap_center_y)
}

/// The game invariant: every reachable game satisfies it, `Game::new`
/// establishes it and every tick preserves it.
pub open spec fn wf(g: GameModel) -> bool {
    &&& 0 <= g.spawn_acc < SPAWN_INTERVAL_US as int
    &&& g.score >= SCORE_SENTINEL as int
    &&& g.next_id >= 0
    &&& (g.state == GameState::Playing <==> g.bird is Some)
    &&& (g.bird is Some ==> bird_wf(g.bird.unwrap()))
    &&& (forall|i: int|
        0 <= i < g.obstacles.len() ==> obstacle_wf(#[trigger] g.obstacles[i], g.next_id))
    &&& (forall|i: int, j: int|
        0 <= i < j < g.obstacles.len() ==> #[trigger] g.obstacles[i].id != #[trigger] g.obstacles[j].id)
    &&& FLOOR_WRAP_AT_NANO as int <= g.floor_x0 <= FLOOR_WRAP_TO_NANO as int
    &&& FLOOR_WRAP_AT_NANO as int <= g.floor_x1 <= FLOOR_WRAP_TO_NANO as int
}

/// The game every run starts from: Menu, no bird, no obstacles, the two
/// floor segments tiled from the origin, the score at its sentinel.
pub open spec fn initial_game() -> GameModel {
    GameModel {
        state: GameState::Menu,
        bird: None,
        obstacles: Seq::empty(),
        floor_x0: crate::constants::FLOOR_START_0_NANO as int,
        floor_x1: crate::constants::FLOOR_START_1_NANO as int,
        score: SCORE_SENTINEL as int,
        spawn_acc: 0,
        next_id: 0,
    }
}

/// One floor segment after a tick: scrolled left, wrapped back to the
/// right edge once past the wrap threshold.
pub open spec fn floor_after(x: int, dt: int) -> int {
    let moved = x - (SCROLL_NANO_PER_US as int) * dt;
    if moved < FLOOR_WRAP_AT_NANO as int {
        FLOOR_WRAP_TO_NANO as int
    } else {
        moved
    }
}

/// How many times the spawn timer fires during a tick of `dt`
/// microseconds; zero outside Playing, where the timer does not run.
pub open spec fn spec_pending(g: GameModel, dt: int) -> int {
    if g.state == GameState::Playing {
        (g.spawn_acc + dt) / (SPAWN_INTERVAL_US as int)
    } else {
        0
    }
}

/// One despawn event per leftover obstacle, in stored order; emitted
/// when entering Playing clears the previous run's obstacles.
pub open spec fn clear_events(obs: Seq<ObstacleModel>) -> Seq<EventModel>
    decreases obs.len(),
{
    if obs.len() == 0 {
        Seq::empty()
    } else {
        clear_events(obs.drop_last()).push(EventModel::ObstacleDespawned { id: obs.last().id })
    }
}

/// The despawn events of one Playing tick's scroll, in stored order.
pub open spec fn despawn_events(obs: Seq<ObstacleModel>, dt: int) -> Seq<EventModel>
    decreases obs.len(),
{
    if obs.len() == 0 {
        Seq::empty()
    } else {
        let rest = despawn_events(obs.drop_last(), dt);
        if survives(obs.last(), dt) {
            rest
        } else {
            rest.push(EventModel::ObstacleDespawned { id: obs.last().id })
        }
    }
}

/// The events of a burst of spawn firings: per firing, the score moves
/// up by exactly one and a Top/Bottom pair appears at the spawn
/// x-coordinate, each half at its derived vertical centre.
pub open spec fn spawn_events(score0: int, id0: int, gaps: Seq<int>) -> Seq<EventModel>
    decreases gaps.len(),
{
    if gaps.len() == 0 {
        Seq::empty()
    } else {
        let j = gaps.len() - 1;
        spawn_events(score0, id0, gaps.drop_last()) + seq![
            EventModel::ScoreChanged { new_score: score0 + j + 1 },
            EventModel::ObstacleSpawned {
                id: id0 + 2 * j,
                position_x: SPAWN_X_NANO as int,
                position_y: gaps.last() + GAP_HEIGHT_NANO as int,
            },
            EventModel::ObstacleSpawned {
                id: id0 + 2 * j + 1,
                position_x: SPAWN_X_NANO as int,
                position_y: gaps.last() - PIPE_DROP_NANO as int,
            },
        ]
    }
}

/// Entering Playing from `from`: leftover obstacles cleared, the score
/// reset to its sentinel, a fresh bird at the canonical start pose. The
/// spawn accumulator and the id counter carry over; the floor is
/// whatever the caller already scrolled it to.
pub open spec fn enter_playing(g: GameModel, from: GameState) -> StepResult {
    StepResult {
        game: GameModel {
            state: GameState::Playing,
            bird: Some(start_bird()),
            obstacles: Seq::empty(),
            floor_x0: g.floor_x0,
            floor_x1: g.floor_x1,
            score: SCORE_SENTINEL as int,
            spawn_acc: g.spawn_acc,
            next_id: g.next_id,
        },
        events: clear_events(g.obstacles) + seq![
            EventModel::ScoreChanged { new_score: SCORE_SENTINEL as int },
            EventModel::StateChanged { from: from, to: GameState::Playing },
        ],
    }
}

/// One Playing tick: bird physics, obstacle scroll and despawn, timer
/// firings with their spawns and score moves, floor scroll, then the
/// collision test against the just-updated world; a collision moves the
/// machine to GameOver within the same tick and destroys the bird.
pub open spec fn playing_step(g: GameModel, dt: int, inp: crate::events::Inputs, gaps: Seq<int>)
    -> StepResult {
    let b1 = bird_after(g.bird.unwrap(), dt, inp.flap_pressed);
    let n = (g.spawn_acc + dt) / (SPAWN_INTERVAL_US as int);
    let obstacles2 = scrolled_obstacles(g.obstacles, dt) + spawned_obstacles(g.next_id, gaps);
    let base = GameModel {
        state: GameState::Playing,
        bird: Some(b1),
        obstacles: obstacles2,
        floor_x0: floor_after(g.floor_x0, dt),
        floor_x1: floor_after(g.floor_x1, dt),
        score: g.score + n,
        spawn_acc: (g.spawn_acc + dt) % (SPAWN_INTERVAL_US as int),
        next_id: g.next_id + 2 * n,
    };
    let evs = despawn_events(g.obstacles, dt) + spawn_events(g.score, g.next_id, gaps);
    if any_collision(b1, obstacles2) {
        StepResult {
            game: GameModel { state: GameState::GameOver, bird: None, ..base },
            events: evs.push(
                EventModel::StateChanged { from: GameState::Playing, to: GameState::GameOver },
            ),
        }
    } else {
        StepResult { game: base, events: evs }
    }
}

/// One whole tick, from any state. In Menu only the floor scrolls and a
/// start input enters Playing; in GameOver nothing runs until a start
/// input enters Playing; while Playing, `playing_step`. A flap outside
/// Playing and a start while Playing are silently ignored. `gaps` is
/// the sequence of gap anchors drawn for this tick's firings, one per
/// firing.
pub open spec fn spec_step(g: GameModel, dt: int, inp: crate::events::Inputs, gaps: Seq<int>)
    -> StepResult {
    match g.state {
        GameState::Menu => {
            let scrolled = GameModel {
                floor_x0: floor_after(g.floor_x0, dt),
                floor_x1: floor_after(g.floor_x1, dt),
                ..g
            };
            if inp.start_pressed {
                enter_playing(scrolled, GameState::Menu)
            } else {
                StepResult { game: scrolled, events: Seq::empty() }
            }
        },
        GameState::GameOver => {
            if inp.start_pressed {
                enter_playing(g, GameState::GameOver)
            } else {
                StepResult { game: g, events: Seq::empty() }
            }
        },
        GameState::Playing => playing_step(g, dt, inp, gaps),
    }
}

/// Clearing the first `i + 1` leftover obstacles extends clearing the
/// first `i` by one despawn event.
pub proof fn lemma_clear_events_take_step(obs: Seq<ObstacleModel>, i: int)
    requires
        0 <= i < obs.len(),
    ensures
        clear_events(obs.take(i + 1)) == clear_events(obs.take(i)).push(
            EventModel::ObstacleDespawned { id: obs[i].id },
        ),
{
    assert(obs.take(i + 1).drop_last() =~= obs.take(i));
    assert(obs.take(i + 1).last() == obs[i]);
}

/// The despawn events of the first `i + 1` stored obstacles extend
/// those of the first `i` by one event iff the `i`-th is dropped.
pub proof fn lemma_despawn_events_take_step(obs: Seq<ObstacleModel>, dt: int, i: int)
    requires
        0 <= i < obs.len(),
    ensures
        despawn_events(obs.take(i + 1), dt) == if survives(obs[i], dt) {
            despawn_events(obs.take(i), dt)
        } else {
            despawn_events(obs.take(i), dt).push(EventModel::ObstacleDespawned { id: obs[i].id })
        },
{
    assert(obs.take(i + 1).drop_last() =~= obs.take(i));
    assert(obs.take(i + 1).last() == obs[i]);
}

/// The spawn events of the first `j + 1` firings extend those of the
/// first `j` by a score move and the pair's two spawn events.
pub proof fn lemma_spawn_events_take_step(score0: int, id0: int, gaps: Seq<int>, j: int)
    requires
        0 <= j < gaps.len(),
    ensures
        spawn_events(score0, id0, gaps.take(j + 1)) == spawn_events(score0, id0, gaps.take(j))
            + seq![
            EventModel::ScoreChanged { new_score: score0 + j + 1 },
            EventModel::ObstacleSpawned {
                id: id0 + 2 * j,
                position_x: SPAWN_X_NANO as int,
                position_y: gaps[j] + GAP_HEIGHT_NANO as int,
            },
            EventModel::ObstacleSpawned {
                id: id0 + 2 * j + 1,
                position_x: SPAWN_X_NANO as int,
                position_y: gaps[j] - PIPE_DROP_NANO as int,
            },
        ],
{
    assert(gaps.take(j + 1).drop_last() =~= gaps.take(j));
    assert(gaps.take(j + 1).last() == gaps[j]);
}

/// A tick's scroll keeps every surviving obstacle well formed, keeps
/// their ids pairwise distinct, and invents no id: every surviving id
/// was stored before the tick.
pub proof fn lemma_scrolled_wf(obs: Seq<ObstacleModel>, dt: int, next_id: int)
    requires
        dt >= 0,
        forall|i: int| 0 <= i < obs.len() ==> obstacle_wf(#[trigger] obs[i], next_id),
        forall|i: int, j: int|
            0 <= i < j < obs.len() ==> #[trigger] obs[i].id != #[trigger] obs[j].id,
    ensures
        scrolled_obstacles(obs, dt).len() <= obs.len(),
        forall|i: int|
            0 <= i < scrolled_obstacles(obs, dt).len() ==> obstacle_wf(
                #[trigger] scrolled_obstacles(obs, dt)[i],
                next_id,
            ),
        forall|i: int|
            0 <= i < scrolled_obstacles(obs, dt).len() ==> exists|k: int|
                0 <= k < obs.len() && (#[trigger] scrolled_obstacles(obs, dt)[i]).id == obs[k].id,
        forall|i: int, j: int|
            0 <= i < j < scrolled_obstacles(obs, dt).len() ==> #[trigger] scrolled_obstacles(
                obs,
                dt,
            )[i].id != #[trigger] scrolled_obstacles(obs, dt)[j].id,
    decreases obs.len(),
{
    if obs.len() > 0 {
        let prefix = obs.drop_last();
        let last = obs.last();
        assert forall|i: int| 0 <= i < prefix.len() implies obstacle_wf(
            #[trigger] prefix[i],
            next_id,
        ) by {
            assert(prefix[i] == obs[i]);
        }
        assert forall|i: int, j: int| 0 <= i < j < prefix.len() implies #[trigger] prefix[i].id
            != #[trigger] prefix[j].id by {
            assert(prefix[i] == obs[i] && prefix[j] == obs[j]);
        }
        lemma_scrolled_wf(prefix, dt, next_id);
        let rest = scrolled_obstacles(prefix, dt);
        if survives(last, dt) {
            let moved = scroll_one(last, dt);
            assert(obstacle_wf(last, next_id));
            assert((SCROLL_NANO_PER_US as int) * dt >= 0);
            assert(obstacle_wf(moved, next_id));
            let s = scrolled_obstacles(obs, dt);
            assert(s == rest.push(moved));
            assert forall|i: int, j: int| 0 <= i < j < s.len() implies #[trigger] s[i].id
                != #[trigger] s[j].id by {
                if j < rest.len() {
                    assert(s[i] == rest[i] && s[j] == rest[j]);
                } else {
                    assert(s[j] == moved && s[i] == rest[i]);
                    let k = choose|k: int| 0 <= k < prefix.len() && rest[i].id == prefix[k].id;
                    assert(prefix[k] == obs[k]);
                    assert(obs[k].id != obs[obs.len() - 1].id);
                }
            }
            assert forall|i: int| 0 <= i < s.len() implies exists|k: int|
                0 <= k < obs.len() && (#[trigger] s[i]).id == obs[k].id by {
                if i < rest.len() {
                    assert(s[i] == rest[i]);
                    let k = choose|k: int| 0 <= k < prefix.len() && rest[i].id == prefix[k].id;
                    assert(prefix[k] == obs[k]);
                    assert(0 <= k < obs.len() && s[i].id == obs[k].id);
                } else {
                    assert(s[i].id == obs[obs.len() - 1].id);
                }
            }
        } else {
            assert forall|i: int| 0 <= i < rest.len() implies exists|k: int|
                0 <= k < obs.len() && (#[trigger] rest[i]).id == obs[k].id by {
                let k = choose|k: int| 0 <= k < prefix.len() && rest[i].id == prefix[k].id;
                assert(prefix[k] == obs[k]);
                assert(0 <= k < obs.len() && rest[i].id == obs[k].id);
            }
        }
    }
}

/// Every obstacle of a spawned burst is well formed against the id
/// counter as it stands after the burst.
pub proof fn lemma_spawned_wf(id0: int, gaps: Seq<int>)
    requires
        id0 >= 0,
        forall|i: int| 0 <= i < gaps.len() ==> gap_in_range(#[trigger] gaps[i]),
    ensures
        forall|i: int|
            0 <= i < 2 * gaps.len() ==> obstacle_wf(
                #[trigger] spawned_obstacles(id0, gaps)[i],
                id0 + 2 * gaps.len(),
            ),
{
    crate::obstacle::lemma_spawned_elements(id0, gaps);
    assert forall|i: int| 0 <= i < 2 * gaps.len() implies obstacle_wf(
        #[trigger] spawned_obstacles(id0, gaps)[i],
        id0 + 2 * gaps.len(),
    ) by {
        assert(0 <= i / 2 < gaps.len());
        assert(gap_in_range(gaps[i / 2]));
    }
}

/// All of a tick's drawn gap anchors lie in the sampling range and
/// there is one per firing.
pub open spec fn valid_gaps(gaps: Seq<int>, n: int) -> bool {
    &&& gaps.len() == n
    &&& forall|i: int| 0 <= i < gaps.len() ==> gap_in_range(#[trigger] gaps[i])
}

} // verus!

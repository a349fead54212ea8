//! The executable game: the state machine that owns the bird, the
//! obstacle set, the floor, the scoreboard and the spawn timer, and the
//! tick that advances them all.

use vstd::prelude::*;
use crate::constants::{
    BIRD_START_X_NANO, BIRD_START_Y_NANO, CEILING_Y_NANO, DESPAWN_X_NANO, FLAP_VELOCITY_MILLI,
    FLOOR_START_0_NANO, FLOOR_START_1_NANO, FLOOR_WRAP_AT_NANO, FLOOR_WRAP_TO_NANO, FLOOR_Y_NANO,
    GAP_HEIGHT_NANO, GRAVITY_MILLI_PER_US, MAX_DELTA_US, MAX_SPAWNS_PER_TICK, PIPE_DROP_NANO,
    SCORE_SENTINEL, SCROLL_NANO_PER_US, SPAWN_INTERVAL_US, SPAWN_X_NANO, VELOCITY_BOUND_MILLI,
};
use crate::state::GameState;
use crate::bird::{BirdBody, bird_after, tilt_of_velocity};
use crate::obstacle::{
    Obstacle, ObstacleKind, gap_in_range, lemma_scrolled_take_step, lemma_spawned_take_step,
    scrolled_obstacles, spawned_bottom, spawned_obstacles, spawned_top, survives,
};
use crate::collision::{any_collision, collide, hits_boundary, hits_obstacle};
use crate::events::{Event, Inputs, events_view};
use crate::model::{
    GameModel, bird_wf, clear_events, despawn_events, enter_playing, floor_after, initial_game,
    lemma_clear_events_take_step, lemma_despawn_events_take_step, lemma_scrolled_wf,
    lemma_spawn_events_take_step, lemma_spawned_wf, obstacle_wf, playing_step, spawn_events,
    spec_pending, spec_step, valid_gaps, wf,
};

verus! {

/// The sequence of drawn gap anchors, as mathematical integers.
pub open spec fn gaps_int(s: Seq<i64>) -> Seq<int> {
    s.map_values(|g: i64| g as int)
}

/// The whole game. All fields are private: the only ways to a `Game`
/// are `new` and the ticks, so every `Game` a caller can hold satisfies
/// the invariant `wf`.
pub struct Game {
    state: GameState,
    bird: Option<BirdBody>,
    obstacles: Vec<Obstacle>,
    floor_x0: i64,
    floor_x1: i64,
    score: i64,
    spawn_acc: u64,
    next_id: u64,
}

impl View for Game {
    type V = GameModel;

    closed spec fn view(&self) -> GameModel {
        GameModel {
            state: self.state,
            bird: match self.bird {
                Option::Some(b) => Option::Some(b@),
                Option::None => Option::None,
            },
            obstacles: self.obstacles@.map_values(|o: Obstacle| o@),
            floor_x0: self.floor_x0 as int,
            floor_x1: self.floor_x1 as int,
            score: self.score as int,
            spawn_acc: self.spawn_acc as int,
            next_id: self.next_id as int,
        }
    }
}

/// One floor segment after a tick: scrolled left, wrapped back to the
/// right edge once strictly past the wrap threshold.
fn scroll_floor_segment(x: i64, dt: u64) -> (r: i64)
    requires
        FLOOR_WRAP_AT_NANO <= x <= FLOOR_WRAP_TO_NANO,
        dt <= MAX_DELTA_US,
    ensures
        r as int == floor_after(x as int, dt as int),
        FLOOR_WRAP_AT_NANO <= r <= FLOOR_WRAP_TO_NANO,
{
    let moved = x - SCROLL_NANO_PER_US * (dt as i64);
    if moved < FLOOR_WRAP_AT_NANO {
        FLOOR_WRAP_TO_NANO
    } else {
        moved
    }
}

impl Game {
    /// The invariant every reachable game satisfies.
    pub open spec fn wf(&self) -> bool {
        wf(self@)
    }

    /// A fresh game: at the Menu, no bird, no obstacles, the floor
    /// tiled from the origin, the score at its sentinel.
    pub fn new() -> (g: Game)
        ensures
            g@ == initial_game(),
            g.wf(),
    {
        let g = Game {
            state: GameState::Menu,
            bird: None,
            obstacles: Vec::new(),
            floor_x0: FLOOR_START_0_NANO,
            floor_x1: FLOOR_START_1_NANO,
            score: SCORE_SENTINEL,
            spawn_acc: 0,
            next_id: 0,
        };
        proof {
            assert(g@ =~= initial_game());
        }
        g
    }

    /// Which state the machine is in.
    pub fn current_state(&self) -> (s: GameState)
        ensures
            s == self@.state,
    {
        self.state
    }

    /// The scoreboard as it stands, the sentinel -1 included. A
    /// presentation layer displays `max(score, 0)`.
    pub fn current_score(&self) -> (s: i64)
        ensures
            s as int == self@.score,
    {
        self.score
    }

    /// The bird's pose, `(x, y, rotation)`, while one exists.
    pub fn bird_pose(&self) -> (p: Option<(i64, i64, i64)>)
        ensures
            p is Some <==> self@.bird is Some,
            p matches Some(q) ==> {
                &&& q.0 as int == self@.bird.unwrap().pos_x
                &&& q.1 as int == self@.bird.unwrap().pos_y
                &&& q.2 as int == self@.bird.unwrap().rotation
            },
    {
        match self.bird {
            Some(b) => Some((b.pos_x, b.pos_y, b.rotation)),
            None => None,
        }
    }

    /// The bird's whole physics state, while one exists.
    pub fn bird_body(&self) -> (b: Option<BirdBody>)
        ensures
            b is Some <==> self@.bird is Some,
            b matches Some(bb) ==> bb@ == self@.bird.unwrap(),
    {
        self.bird
    }

    /// The live obstacles, in spawn order.
    pub fn obstacle_list(&self) -> (v: Vec<Obstacle>)
        ensures
            v@.map_values(|o: Obstacle| o@) == self@.obstacles,
    {
        let mut v: Vec<Obstacle> = Vec::new();
        let mut i: usize = 0;
        while i < self.obstacles.len()
            invariant
                i <= self.obstacles.len(),
                v@ == self.obstacles@.take(i as int),
            decreases self.obstacles.len() - i,
        {
            v.push(self.obstacles[i]);
            proof {
                assert(v@ =~= self.obstacles@.take(i + 1));
            }
            i += 1;
        }
        proof {
            assert(self.obstacles@.take(self.obstacles@.len() as int) =~= self.obstacles@);
        }
        v
    }

    /// The x positions of the two tiled floor segments.
    pub fn floor_segment_list(&self) -> (v: Vec<i64>)
        ensures
            v@.len() == 2,
            v@[0] as int == self@.floor_x0,
            v@[1] as int == self@.floor_x1,
    {
        let mut v: Vec<i64> = Vec::new();
        v.push(self.floor_x0);
        v.push(self.floor_x1);
        v
    }

    /// Enter Playing from `from`: despawn the previous run's leftover
    /// obstacles, reset the scoreboard to its sentinel, recreate the
    /// bird at the canonical start pose.
    fn start_playing(&mut self, from: GameState) -> (events: Vec<Event>)
        requires
            old(self).wf(),
        ensures
            final(self)@ == enter_playing(old(self)@, from).game,
            events_view(events@) == enter_playing(old(self)@, from).events,
            final(self).wf(),
    {
        let ghost obs0 = old(self)@.obstacles;
        let mut events: Vec<Event> = Vec::new();
        let mut i: usize = 0;
        while i < self.obstacles.len()
            invariant
                i <= self.obstacles.len(),
                obs0 == self.obstacles@.map_values(|o: Obstacle| o@),
                events_view(events@) == clear_events(obs0.take(i as int)),
            decreases self.obstacles.len() - i,
        {
            let id = self.obstacles[i].id;
            events.push(Event::ObstacleDespawned { id });
            proof {
                lemma_clear_events_take_step(obs0, i as int);
                assert(obs0[i as int] == self.obstacles@[i as int]@);
                assert(events_view(events@) =~= clear_events(obs0.take(i + 1)));
            }
            i += 1;
        }
        proof {
            assert(obs0.take(obs0.len() as int) =~= obs0);
        }
        self.obstacles = Vec::new();
        self.bird = Some(
            BirdBody {
                pos_x: BIRD_START_X_NANO,
                pos_y: BIRD_START_Y_NANO,
                velocity_y: 0,
                rotation: 0,
            },
        );
        self.score = SCORE_SENTINEL;
        self.state = GameState::Playing;
        events.push(Event::ScoreChanged { new_score: SCORE_SENTINEL });
        events.push(Event::StateChanged { from, to: GameState::Playing });
        proof {
            assert(self@.obstacles =~= enter_playing(old(self)@, from).game.obstacles);
            assert(self@ =~~= enter_playing(old(self)@, from).game);
            assert(events_view(events@) =~~= enter_playing(old(self)@, from).events);
        }
        events
    }

    /// One tick with the gap anchors handed in, one per firing of the
    /// spawn timer this tick — so the whole step is deterministic and a
    /// test can drive exact runs. `pending_firings(dt)` says how many
    /// anchors to bring; each must lie in the sampling range. The
    /// headroom bounds on the score and the id counter keep their
    /// increments inside the machine integers: an unchecked counter
    /// would overflow there.
    ///
    /// The tick lands exactly on the mathematical `spec_step`, and
    /// every reachable game keeps the invariant.
    #[verifier::loop_isolation(false)]
    pub fn tick_with_gaps(&mut self, dt: u64, inputs: Inputs, gaps: &Vec<i64>) -> (events: Vec<
        Event,
    >)
        requires
            old(self).wf(),
            dt <= MAX_DELTA_US,
            gaps@.len() == spec_pending(old(self)@, dt as int),
            forall|i: int| 0 <= i < gaps@.len() ==> gap_in_range(#[trigger] gaps@[i] as int),
            old(self)@.state == GameState::Playing ==> old(self)@.score + MAX_SPAWNS_PER_TICK
                <= i64::MAX,
            old(self)@.state == GameState::Playing ==> old(self)@.next_id + 2 * (
            MAX_SPAWNS_PER_TICK as int) <= u64::MAX,
        ensures
            final(self).wf(),
            final(self)@ == spec_step(old(self)@, dt as int, inputs, gaps_int(gaps@)).game,
            events_view(events@) == spec_step(old(self)@, dt as int, inputs, gaps_int(gaps@)).events,
    {
        let ghost g0 = old(self)@;
        let ghost gseq = gaps_int(gaps@);
        match self.state {
            GameState::Menu => {
                self.floor_x0 = scroll_floor_segment(self.floor_x0, dt);
                self.floor_x1 = scroll_floor_segment(self.floor_x1, dt);
                let ghost scrolled = GameModel {
                    floor_x0: floor_after(g0.floor_x0, dt as int),
                    floor_x1: floor_after(g0.floor_x1, dt as int),
                    ..g0
                };
                proof {
                    assert(self@ =~= scrolled);
                }
                if inputs.start_pressed {
                    let events = self.start_playing(GameState::Menu);
                    proof {
                        assert(self@ =~~= spec_step(g0, dt as int, inputs, gseq).game);
                        assert(events_view(events@) =~~= spec_step(
                            g0,
                            dt as int,
                            inputs,
                            gseq,
                        ).events);
                    }
                    events
                } else {
                    let events: Vec<Event> = Vec::new();
                    proof {
                        assert(self@ =~~= spec_step(g0, dt as int, inputs, gseq).game);
                        assert(events_view(events@) =~~= spec_step(
                            g0,
                            dt as int,
                            inputs,
                            gseq,
                        ).events);
                    }
                    events
                }
            },
            GameState::GameOver => {
                if inputs.start_pressed {
                    let events = self.start_playing(GameState::GameOver);
                    proof {
                        assert(self@ =~~= spec_step(g0, dt as int, inputs, gseq).game);
                        assert(events_view(events@) =~~= spec_step(
                            g0,
                            dt as int,
                            inputs,
                            gseq,
                        ).events);
                    }
                    events
                } else {
                    let events: Vec<Event> = Vec::new();
                    proof {
                        assert(self@ =~~= spec_step(g0, dt as int, inputs, gseq).game);
                        assert(events_view(events@) =~~= spec_step(
                            g0,
                            dt as int,
                            inputs,
                            gseq,
                        ).events);
                    }
                    events
                }
            },
            GameState::Playing => {
                // Bird physics: flap overwrites, else gravity; then the
                // position integrates with the new velocity and the tilt
                // follows it.
                let b = self.bird.unwrap();
                let new_v: i64 = if inputs.flap_pressed {
                    FLAP_VELOCITY_MILLI
                } else {
                    b.velocity_y - GRAVITY_MILLI_PER_US * (dt as i64)
                };
                proof {
                    assert(-432_010_000_000 <= new_v as int <= 432_010_000_000);
                    assert((new_v as int) * (dt as int) <= 4_320_100_000_000_000_000 && (
                    new_v as int) * (dt as int) >= -4_320_100_000_000_000_000) by (nonlinear_arith)
                        requires
                            -432_010_000_000 <= new_v as int <= 432_010_000_000,
                            0 <= dt as int <= 10_000_000,
                    ;
                }
                let dy: i64 = new_v * (dt as i64);
                let new_y: i64 = b.pos_y + dy;
                let new_rot: i64 = tilt_of_velocity(new_v);
                let ghost b1 = bird_after(g0.bird.unwrap(), dt as int, inputs.flap_pressed);
                proof {
                    assert(b1.velocity_y == new_v as int);
                    assert(b1.pos_y == new_y as int);
                    assert(b1.rotation == new_rot as int);
                    assert(b1.pos_x == b.pos_x as int);
                }
                // Scroll the obstacles, dropping the ones past the
                // despawn threshold.
                let ghost obs0 = g0.obstacles;
                let mut events: Vec<Event> = Vec::new();
                let mut kept: Vec<Obstacle> = Vec::new();
                let scroll_dx: i64 = SCROLL_NANO_PER_US * (dt as i64);
                let mut i: usize = 0;
                while i < self.obstacles.len()
                    invariant
                        i <= self.obstacles.len(),
                        kept@.map_values(|o: Obstacle| o@) == scrolled_obstacles(
                            obs0.take(i as int),
                            dt as int,
                        ),
                        events_view(events@) == despawn_events(obs0.take(i as int), dt as int),
                    decreases self.obstacles.len() - i,
                {
                    let o = self.obstacles[i];
                    proof {
                        assert(obs0[i as int] == o@);
                        assert(obstacle_wf(o@, g0.next_id));
                    }
                    let nx = o.position_x - scroll_dx;
                    proof {
                        lemma_scrolled_take_step(obs0, dt as int, i as int);
                        lemma_despawn_events_take_step(obs0, dt as int, i as int);
                    }
                    if nx >= DESPAWN_X_NANO {
                        kept.push(
                            Obstacle {
                                id: o.id,
                                position_x: nx,
                                gap_center_y: o.gap_center_y,
                                kind: o.kind,
                            },
                        );
                        proof {
                            assert(survives(obs0[i as int], dt as int));
                            assert(kept@.map_values(|o: Obstacle| o@) =~= scrolled_obstacles(
                                obs0.take(i + 1),
                                dt as int,
                            ));
                            assert(events_view(events@) =~= despawn_events(
                                obs0.take(i + 1),
                                dt as int,
                            ));
                        }
                    } else {
                        events.push(Event::ObstacleDespawned { id: o.id });
                        proof {
                            assert(!survives(obs0[i as int], dt as int));
                            assert(kept@.map_values(|o: Obstacle| o@) =~= scrolled_obstacles(
                                obs0.take(i + 1),
                                dt as int,
                            ));
                            assert(events_view(events@) =~= despawn_events(
                                obs0.take(i + 1),
                                dt as int,
                            ));
                        }
                    }
                    i += 1;
                }
                proof {
                    assert(obs0.take(obs0.len() as int) =~= obs0);
                }
                // The spawn timer: each firing moves the score by one
                // and appends one pair at the spawn x-coordinate.
                let total: u64 = self.spawn_acc + dt;
                let n: u64 = total / SPAWN_INTERVAL_US;
                let new_acc: u64 = total % SPAWN_INTERVAL_US;
                proof {
                    assert(n <= MAX_SPAWNS_PER_TICK);
                    assert(n as int == gseq.len());
                }
                let score0 = self.score;
                let id0 = self.next_id;
                let mut new_score = self.score;
                let mut nid = self.next_id;
                let mut j: u64 = 0;
                while j < n
                    invariant
                        0 <= j <= n,
                        new_score as int == score0 as int + j,
                        nid as int == id0 as int + 2 * j,
                        kept@.map_values(|o: Obstacle| o@) == scrolled_obstacles(obs0, dt as int)
                            + spawned_obstacles(id0 as int, gseq.take(j as int)),
                        events_view(events@) == despawn_events(obs0, dt as int) + spawn_events(
                            score0 as int,
                            id0 as int,
                            gseq.take(j as int),
                        ),
                    decreases n - j,
                {
                    let ghost kept_before = kept@;
                    let ghost events_before = events@;
                    proof {
                        assert(gseq[j as int] == gaps@[j as int] as int);
                        assert(gap_in_range(gseq[j as int]));
                    }
                    new_score = new_score + 1;
                    let g = gaps[j as usize];
                    let top_y = g + GAP_HEIGHT_NANO;
                    let bot_y = g - PIPE_DROP_NANO;
                    let ev_score = Event::ScoreChanged { new_score };
                    let ev_top = Event::ObstacleSpawned {
                        id: nid,
                        position_x: SPAWN_X_NANO,
                        position_y: top_y,
                    };
                    let ev_bot = Event::ObstacleSpawned {
                        id: nid + 1,
                        position_x: SPAWN_X_NANO,
                        position_y: bot_y,
                    };
                    events.push(ev_score);
                    events.push(ev_top);
                    events.push(ev_bot);
                    let top_obs = Obstacle {
                        id: nid,
                        position_x: SPAWN_X_NANO,
                        gap_center_y: g,
                        kind: ObstacleKind::Top,
                    };
                    let bot_obs = Obstacle {
                        id: nid + 1,
                        position_x: SPAWN_X_NANO,
                        gap_center_y: g,
                        kind: ObstacleKind::Bottom,
                    };
                    kept.push(top_obs);
                    kept.push(bot_obs);
                    proof {
                        lemma_spawned_take_step(id0 as int, gseq, j as int);
                        lemma_spawn_events_take_step(score0 as int, id0 as int, gseq, j as int);
                        assert(top_obs@ == spawned_top(id0 as int + 2 * (j as int), gseq[j as int]));
                        assert(bot_obs@ == spawned_bottom(
                            id0 as int + 2 * (j as int),
                            gseq[j as int],
                        ));
                        let lhs = kept@.map_values(|o: Obstacle| o@);
                        let prev = kept_before.map_values(|o: Obstacle| o@);
                        let rhs = scrolled_obstacles(obs0, dt as int) + spawned_obstacles(
                            id0 as int,
                            gseq.take(j + 1),
                        );
                        assert(kept@ == kept_before.push(top_obs).push(bot_obs));
                        assert(spawned_obstacles(id0 as int, gseq.take(j + 1))
                            == spawned_obstacles(id0 as int, gseq.take(j as int)).push(top_obs@).push(
                            bot_obs@,
                        ));
                        assert(lhs.len() == rhs.len());
                        assert forall|m: int| 0 <= m < lhs.len() implies lhs[m] == rhs[m] by {
                            if m < kept_before.len() {
                                assert(kept@[m] == kept_before[m]);
                                assert(lhs[m] == kept_before[m]@);
                                assert(prev[m] == kept_before[m]@);
                                assert(rhs[m] == prev[m]);
                            } else if m == kept_before.len() {
                                assert(kept@[m] == top_obs);
                                assert(rhs[m] == top_obs@);
                            } else {
                                assert(kept@[m] == bot_obs);
                                assert(rhs[m] == bot_obs@);
                            }
                        }
                        assert(lhs =~= rhs);
                        let elhs = events_view(events@);
                        let eprev = events_view(events_before);
                        let erhs = despawn_events(obs0, dt as int) + spawn_events(
                            score0 as int,
                            id0 as int,
                            gseq.take(j + 1),
                        );
                        assert(events@ == events_before.push(ev_score).push(ev_top).push(ev_bot));
                        assert(spawn_events(score0 as int, id0 as int, gseq.take(j + 1))
                            == spawn_events(score0 as int, id0 as int, gseq.take(j as int)) + seq![
                            ev_score@,
                            ev_top@,
                            ev_bot@,
                        ]);
                        assert(elhs.len() == erhs.len());
                        assert forall|m: int| 0 <= m < elhs.len() implies elhs[m] == erhs[m] by {
                            if m < events_before.len() {
                                assert(events@[m] == events_before[m]);
                                assert(elhs[m] == events_before[m]@);
                                assert(eprev[m] == events_before[m]@);
                                assert(erhs[m] == eprev[m]);
                            } else if m == events_before.len() {
                                assert(events@[m] == ev_score);
                                assert(erhs[m] == ev_score@);
                            } else if m == events_before.len() + 1 {
                                assert(events@[m] == ev_top);
                                assert(erhs[m] == ev_top@);
                            } else {
                                assert(events@[m] == ev_bot);
                                assert(erhs[m] == ev_bot@);
                            }
                        }
                        assert(elhs =~= erhs);
                    }
                    nid = nid + 2;
                    j += 1;
                }
                proof {
                    assert(gseq.take(gseq.len() as int) =~= gseq);
                }
                let ghost obs2 = scrolled_obstacles(obs0, dt as int) + spawned_obstacles(
                    id0 as int,
                    gseq,
                );
                proof {
                    lemma_scrolled_wf(obs0, dt as int, g0.next_id);
                    lemma_spawned_wf(id0 as int, gseq);
                    crate::obstacle::lemma_spawned_elements(id0 as int, gseq);
                    assert forall|m: int| 0 <= m < obs2.len() implies obstacle_wf(
                        #[trigger] obs2[m],
                        id0 as int + 2 * gseq.len(),
                    ) by {
                        if m < scrolled_obstacles(obs0, dt as int).len() {
                            assert(obstacle_wf(obs2[m], g0.next_id));
                        } else {
                            assert(obs2[m] == spawned_obstacles(id0 as int, gseq)[m
                                - scrolled_obstacles(obs0, dt as int).len()]);
                        }
                    }
                }
                // The floor scrolls and wraps under every active state.
                let f0 = scroll_floor_segment(self.floor_x0, dt);
                let f1 = scroll_floor_segment(self.floor_x1, dt);
                // Collision: the boundary test, then every live
                // obstacle, against the just-updated world.
                let mut hit: bool = new_y > CEILING_Y_NANO || new_y < FLOOR_Y_NANO;
                proof {
                    assert(hit == hits_boundary(b1.pos_y));
                }
                let mut k: usize = 0;
                while k < kept.len()
                    invariant
                        k <= kept.len(),
                        hit == (hits_boundary(b1.pos_y) || exists|m: int|
                            0 <= m < k && hits_obstacle(b1, #[trigger] obs2[m])),
                    decreases kept.len() - k,
                {
                    proof {
                        assert(kept@[k as int]@ == obs2[k as int]);
                        assert(obstacle_wf(obs2[k as int], id0 as int + 2 * gseq.len()));
                    }
                    if collide(b.pos_x, new_y, &kept[k]) {
                        hit = true;
                        proof {
                            assert(hits_obstacle(b1, obs2[k as int]));
                        }
                    }
                    k += 1;
                }
                proof {
                    assert(kept@.len() == obs2.len());
                    assert(hit == any_collision(b1, obs2));
                }
                // Commit the tick; a collision ends the run within the
                // same tick and destroys the bird.
                self.obstacles = kept;
                self.floor_x0 = f0;
                self.floor_x1 = f1;
                self.score = new_score;
                self.spawn_acc = new_acc;
                self.next_id = nid;
                if hit {
                    self.state = GameState::GameOver;
                    self.bird = None;
                    events.push(
                        Event::StateChanged { from: GameState::Playing, to: GameState::GameOver },
                    );
                } else {
                    self.bird = Some(
                        BirdBody { pos_x: b.pos_x, pos_y: new_y, velocity_y: new_v, rotation: new_rot },
                    );
                }
                proof {
                    let step = playing_step(g0, dt as int, inputs, gseq);
                    assert(self@.obstacles =~= step.game.obstacles);
                    assert(self@ =~~= step.game);
                    assert(events_view(events@) =~~= step.events);
                    // The invariant survives the tick.
                    if !hit {
                        if inputs.flap_pressed {
                            assert(b1.velocity_y == FLAP_VELOCITY_MILLI as int);
                        } else if dt == 0 {
                            assert(b1.velocity_y == g0.bird.unwrap().velocity_y);
                        } else {
                            assert(!hits_boundary(b1.pos_y));
                            assert(FLOOR_Y_NANO as int <= b1.pos_y <= CEILING_Y_NANO as int);
                            assert(FLOOR_Y_NANO as int <= g0.bird.unwrap().pos_y
                                <= CEILING_Y_NANO as int);
                            assert(-(VELOCITY_BOUND_MILLI as int) <= (b1.velocity_y) * (dt as int)
                                <= VELOCITY_BOUND_MILLI as int);
                            assert(-(VELOCITY_BOUND_MILLI as int) <= b1.velocity_y
                                <= VELOCITY_BOUND_MILLI as int) by (nonlinear_arith)
                                requires
                                    1 <= dt as int,
                                    -(VELOCITY_BOUND_MILLI as int) <= (b1.velocity_y) * (dt as int)
                                        <= VELOCITY_BOUND_MILLI as int,
                            ;
                        }
                        assert(bird_wf(b1));
                    }
                    assert forall|p: int, q: int| 0 <= p < q < obs2.len() implies #[trigger] obs2[p].id
                        != #[trigger] obs2[q].id by {
                        let sl = scrolled_obstacles(obs0, dt as int).len() as int;
                        if q < sl {
                        } else if p >= sl {
                            assert(obs2[p].id == id0 as int + (p - sl));
                            assert(obs2[q].id == id0 as int + (q - sl));
                        } else {
                            assert(obstacle_wf(obs2[p], g0.next_id));
                            assert(obs2[q].id == id0 as int + (q - sl));
                        }
                    }
                    assert(wf(self@));
                }
                events
            },
        }
    }

    /// One tick with freshly drawn random gap anchors: the host's
    /// entry point. The step is `tick_with_gaps` for some sequence of
    /// in-range anchors, one per firing — everything except the drawn
    /// anchors themselves is pinned down.
    pub fn tick(&mut self, dt: u64, inputs: Inputs) -> (events: Vec<Event>)
        requires
            old(self).wf(),
            dt <= MAX_DELTA_US,
            old(self)@.state == GameState::Playing ==> old(self)@.score + MAX_SPAWNS_PER_TICK
                <= i64::MAX,
            old(self)@.state == GameState::Playing ==> old(self)@.next_id + 2 * (
            MAX_SPAWNS_PER_TICK as int) <= u64::MAX,
        ensures
            final(self).wf(),
            exists|gs: Seq<int>|
                {
                    &&& #[trigger] valid_gaps(gs, spec_pending(old(self)@, dt as int))
                    &&& final(self)@ == spec_step(old(self)@, dt as int, inputs, gs).game
                    &&& events_view(events@) == spec_step(old(self)@, dt as int, inputs, gs).events
                },
    {
        let n = self.pending_firings(dt);
        let mut gaps: Vec<i64> = Vec::new();
        while (gaps.len() as u64) < n
            invariant
                gaps@.len() <= n,
                forall|i: int| 0 <= i < gaps@.len() ==> gap_in_range(#[trigger] gaps@[i] as int),
            decreases n - gaps.len(),
        {
            let g = crate::rng::draw_gap_anchor();
            gaps.push(g);
        }
        let events = self.tick_with_gaps(dt, inputs, &gaps);
        proof {
            let gs = gaps_int(gaps@);
            assert forall|i: int| 0 <= i < gs.len() implies gap_in_range(#[trigger] gs[i]) by {
                assert(gs[i] == gaps@[i] as int);
            }
            assert(valid_gaps(gs, spec_pending(old(self)@, dt as int)));
        }
        events
    }

    /// How many times the spawn timer will fire during a tick of `dt`
    /// microseconds from here: a caller of `tick_with_gaps` must bring
    /// exactly this many drawn gap anchors.
    pub fn pending_firings(&self, dt: u64) -> (n: u64)
        requires
            self.wf(),
            dt <= MAX_DELTA_US,
        ensures
            n as int == spec_pending(self@, dt as int),
            n <= MAX_SPAWNS_PER_TICK,
    {
        match self.state {
            GameState::Playing => (self.spawn_acc + dt) / SPAWN_INTERVAL_US,
            _ => 0,
        }
    }
}

} // verus!

//! The general laws of the simulation, each proved once and for all
//! over the mathematical model that `Game::tick_with_gaps` is proved to
//! land on. The physics laws (gravity linear in elapsed time, flap as
//! an idempotent overwrite) live beside the physics in `bird`; the
//! spawned-pair shape law lives beside the spawner in `obstacle`.

use vstd::prelude::*;
use crate::constants::{SCORE_SENTINEL, SPAWN_INTERVAL_US};
use crate::state::GameState;
use crate::bird::{bird_after, start_bird};
use crate::collision::any_collision;
use crate::events::{EventModel, Inputs};
use crate::model::{
    GameModel, spawn_events, spec_pending, spec_step, wf,
};

verus! {

/// While the machine is not Playing no bird exists, and a tick that
/// does not enter Playing neither creates nor updates one; such a tick
/// also leaves the state where it was.
pub proof fn lemma_no_bird_outside_playing(g: GameModel, dt: int, inp: Inputs, gaps: Seq<int>)
    requires
        wf(g),
        g.state != GameState::Playing,
    ensures
        g.bird is None,
        !inp.start_pressed ==> spec_step(g, dt, inp, gaps).game.bird is None,
        !inp.start_pressed ==> spec_step(g, dt, inp, gaps).game.state == g.state,
{
}

/// A Playing tick moves the score up by exactly the number of times
/// the spawn timer fired, one per firing, and never down: the score is
/// monotonically non-decreasing throughout a Playing session.
pub proof fn lemma_score_counts_firings(g: GameModel, dt: int, inp: Inputs, gaps: Seq<int>)
    requires
        wf(g),
        g.state == GameState::Playing,
        dt >= 0,
    ensures
        spec_step(g, dt, inp, gaps).game.score == g.score + spec_pending(g, dt),
        spec_pending(g, dt) >= 0,
        spec_step(g, dt, inp, gaps).game.score >= g.score,
{
    assert(spec_pending(g, dt) >= 0) by (nonlinear_arith)
        requires
            g.spawn_acc >= 0,
            dt >= 0,
            spec_pending(g, dt) == (g.spawn_acc + dt) / (SPAWN_INTERVAL_US as int),
    ;
}

/// Within one burst of firings, the `j`-th firing's score event reads
/// exactly one more than the `j - 1`-th's: the score moves by exactly
/// one per firing, with no coalescing however large the tick.
pub proof fn lemma_spawn_events_scores(score0: int, id0: int, gaps: Seq<int>, j: int)
    requires
        0 <= j < gaps.len(),
    ensures
        spawn_events(score0, id0, gaps).len() == 3 * gaps.len(),
        spawn_events(score0, id0, gaps)[3 * j] == (EventModel::ScoreChanged {
            new_score: score0 + j + 1,
        }),
    decreases gaps.len(),
{
    lemma_spawn_events_len(score0, id0, gaps);
    if j == gaps.len() - 1 {
        lemma_spawn_events_len(score0, id0, gaps.drop_last());
    } else {
        lemma_spawn_events_scores(score0, id0, gaps.drop_last(), j);
        lemma_spawn_events_len(score0, id0, gaps.drop_last());
        assert(gaps.drop_last().len() == gaps.len() - 1);
    }
}

/// A burst of `n` firings emits exactly `3 * n` spawn-side events.
pub proof fn lemma_spawn_events_len(score0: int, id0: int, gaps: Seq<int>)
    ensures
        spawn_events(score0, id0, gaps).len() == 3 * gaps.len(),
    decreases gaps.len(),
{
    if gaps.len() > 0 {
        lemma_spawn_events_len(score0, id0, gaps.drop_last());
    }
}

/// A collision ends the run within the very tick that detects it: a
/// Playing tick lands on GameOver exactly when the just-updated bird
/// collides with the boundary or an updated obstacle, and whenever the
/// tick stays in Playing, no collision condition holds of the world it
/// leaves behind.
pub proof fn lemma_collision_ends_playing(g: GameModel, dt: int, inp: Inputs, gaps: Seq<int>)
    requires
        wf(g),
        g.state == GameState::Playing,
    ensures
        spec_step(g, dt, inp, gaps).game.state == GameState::GameOver || spec_step(
            g,
            dt,
            inp,
            gaps,
        ).game.state == GameState::Playing,
        spec_step(g, dt, inp, gaps).game.state == GameState::GameOver <==> any_collision(
            bird_after(g.bird.unwrap(), dt, inp.flap_pressed),
            spec_step(g, dt, inp, gaps).game.obstacles,
        ),
        spec_step(g, dt, inp, gaps).game.state == GameState::Playing ==> !any_collision(
            spec_step(g, dt, inp, gaps).game.bird.unwrap(),
            spec_step(g, dt, inp, gaps).game.obstacles,
        ),
{
}

/// Entering Playing, from the Menu or from GameOver, always yields the
/// same fresh run: the score at its sentinel, exactly one bird at the
/// canonical start pose, and zero obstacles.
pub proof fn lemma_enter_playing_resets(g: GameModel, dt: int, inp: Inputs, gaps: Seq<int>)
    requires
        wf(g),
        g.state != GameState::Playing,
        inp.start_pressed,
    ensures
        spec_step(g, dt, inp, gaps).game.state == GameState::Playing,
        spec_step(g, dt, inp, gaps).game.score == SCORE_SENTINEL as int,
        spec_step(g, dt, inp, gaps).game.bird == Some(start_bird()),
        spec_step(g, dt, inp, gaps).game.obstacles.len() == 0,
{
}

} // verus!

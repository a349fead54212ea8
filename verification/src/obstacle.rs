//! Obstacles: the paired top/bottom pipes, their scroll rule, the
//! despawn rule, and the shape of the obstacles a burst of spawn-timer
//! firings creates.

use vstd::prelude::*;
use crate::constants::{
    DESPAWN_X_NANO, GAP_ANCHOR_UPPER_NANO, GAP_HEIGHT_NANO, PIPE_DROP_NANO, SCROLL_NANO_PER_US,
    SPAWN_X_NANO,
};

verus! {

/// Which half of a pair an obstacle is.
#[derive(Clone, Copy, Debug, PartialEq, Eq, Structural)]
pub enum ObstacleKind {
    Top,
    Bottom,
}

/// One pipe. A pair shares its spawn tick, `position_x` and
/// `gap_center_y`; the two halves differ only in `kind`. The entity's
/// own vertical centre is derived: see `position_y`.
#[derive(Clone, Copy, Debug, PartialEq, Eq, Structural)]
pub struct Obstacle {
    /// Identifier, unique among all obstacles ever spawned by one game.
    /// A pair takes two consecutive ids, Top first.
    pub id: u64,
    /// Horizontal centre, nanopixels.
    pub position_x: i64,
    /// The pair's gap anchor, nanopixels; the open gap spans from the
    /// anchor up to anchor + GAP_HEIGHT_NANO.
    pub gap_center_y: i64,
    pub kind: ObstacleKind,
}

/// Mathematical image of `Obstacle`, over unbounded integers.
pub ghost struct ObstacleModel {
    pub id: int,
    pub position_x: int,
    pub gap_center_y: int,
    pub kind: ObstacleKind,
}

impl View for Obstacle {
    type V = ObstacleModel;

    open spec fn view(&self) -> ObstacleModel {
        ObstacleModel {
            id: self.id as int,
            position_x: self.position_x as int,
            gap_center_y: self.gap_center_y as int,
            kind: self.kind,
        }
    }
}

impl Obstacle {
    /// The entity's own vertical centre, derived from the pair's
    /// anchor and this half's kind.
    pub fn position_y(&self) -> (y: i64)
        requires
            gap_in_range(self.gap_center_y as int),
        ensures
            y as int == obstacle_y(self@),
    {
        match self.kind {
            ObstacleKind::Top => self.gap_center_y + GAP_HEIGHT_NANO,
            ObstacleKind::Bottom => self.gap_center_y - PIPE_DROP_NANO,
        }
    }
}

/// Vertical centre of the entity: a Top pipe hangs a gap height above
/// the anchor, a Bottom pipe sits a pipe body below it.
pub open spec fn obstacle_y(o: ObstacleModel) -> int {
    match o.kind {
        ObstacleKind::Top => o.gap_center_y + GAP_HEIGHT_NANO as int,
        ObstacleKind::Bottom => o.gap_center_y - PIPE_DROP_NANO as int,
    }
}

/// One obstacle after scrolling left for `dt` microseconds.
pub open spec fn scroll_one(o: ObstacleModel, dt: int) -> ObstacleModel {
    ObstacleModel {
        id: o.id,
        position_x: o.position_x - (SCROLL_NANO_PER_US as int) * dt,
        gap_center_y: o.gap_center_y,
        kind: o.kind,
    }
}

/// Whether an obstacle survives the despawn threshold after scrolling.
pub open spec fn survives(o: ObstacleModel, dt: int) -> bool {
    scroll_one(o, dt).position_x >= DESPAWN_X_NANO as int
}

/// The live obstacles after one tick's scroll: each scrolled left, and
/// those past the despawn threshold removed, order kept.
pub open spec fn scrolled_obstacles(obs: Seq<ObstacleModel>, dt: int) -> Seq<ObstacleModel>
    decreases obs.len(),
{
    if obs.len() == 0 {
        Seq::empty()
    } else {
        let rest = scrolled_obstacles(obs.drop_last(), dt);
        if survives(obs.last(), dt) {
            rest.push(scroll_one(obs.last(), dt))
        } else {
            rest
        }
    }
}

/// Ids of the obstacles the tick's scroll removes, in their stored order.
pub open spec fn despawned_ids(obs: Seq<ObstacleModel>, dt: int) -> Seq<int>
    decreases obs.len(),
{
    if obs.len() == 0 {
        Seq::empty()
    } else {
        let rest = despawned_ids(obs.drop_last(), dt);
        if survives(obs.last(), dt) {
            rest
        } else {
            rest.push(obs.last().id)
        }
    }
}

/// The Top half of the pair spawned for gap anchor `gap`, given the
/// first of its two consecutive ids.
pub open spec fn spawned_top(id: int, gap: int) -> ObstacleModel {
    ObstacleModel {
        id: id,
        position_x: SPAWN_X_NANO as int,
        gap_center_y: gap,
        kind: ObstacleKind::Top,
    }
}

/// The Bottom half of the pair spawned for gap anchor `gap`.
pub open spec fn spawned_bottom(id: int, gap: int) -> ObstacleModel {
    ObstacleModel {
        id: id + 1,
        position_x: SPAWN_X_NANO as int,
        gap_center_y: gap,
        kind: ObstacleKind::Bottom,
    }
}

/// The obstacles a burst of timer firings appends, one Top/Bottom pair
/// per drawn gap anchor, ids counting up in pairs from `id0`.
pub open spec fn spawned_obstacles(id0: int, gaps: Seq<int>) -> Seq<ObstacleModel>
    decreases gaps.len(),
{
    if gaps.len() == 0 {
        Seq::empty()
    } else {
        let j = gaps.len() - 1;
        spawned_obstacles(id0, gaps.drop_last())
            .push(spawned_top(id0 + 2 * j, gaps.last()))
            .push(spawned_bottom(id0 + 2 * j, gaps.last()))
    }
}

/// A gap anchor is valid when it lies in the sampling range.
pub open spec fn gap_in_range(g: int) -> bool {
    0 <= g < GAP_ANCHOR_UPPER_NANO as int
}

/// Every spawned pair shares one `position_x` (the fixed spawn
/// x-coordinate) and one gap anchor; when the drawn anchors lie in the
/// sampling range, so do the anchors of the spawned obstacles.
pub proof fn lemma_spawned_pairs_shape(id0: int, gaps: Seq<int>, j: int)
    requires
        0 <= j < gaps.len(),
    ensures
        spawned_obstacles(id0, gaps).len() == 2 * gaps.len(),
        spawned_obstacles(id0, gaps)[2 * j] == spawned_top(id0 + 2 * j, gaps[j]),
        spawned_obstacles(id0, gaps)[2 * j + 1] == spawned_bottom(id0 + 2 * j, gaps[j]),
        spawned_obstacles(id0, gaps)[2 * j].position_x == spawned_obstacles(id0, gaps)[2 * j
            + 1].position_x,
        spawned_obstacles(id0, gaps)[2 * j].position_x == SPAWN_X_NANO as int,
        spawned_obstacles(id0, gaps)[2 * j].gap_center_y == spawned_obstacles(id0, gaps)[2 * j
            + 1].gap_center_y,
        spawned_obstacles(id0, gaps)[2 * j].gap_center_y == gaps[j],
        gap_in_range(gaps[j]) ==> gap_in_range(spawned_obstacles(id0, gaps)[2 * j].gap_center_y),
    decreases gaps.len(),
{
    lemma_spawned_len(id0, gaps);
    if j == gaps.len() - 1 {
        lemma_spawned_len(id0, gaps.drop_last());
    } else {
        lemma_spawned_pairs_shape(id0, gaps.drop_last(), j);
        assert(gaps.drop_last()[j] == gaps[j]);
        lemma_spawned_len(id0, gaps.drop_last());
    }
}

/// Scrolling the first `i + 1` stored obstacles extends scrolling the
/// first `i` by the `i`-th, kept or dropped. This is how a loop over
/// the stored obstacles walks `scrolled_obstacles`.
pub proof fn lemma_scrolled_take_step(obs: Seq<ObstacleModel>, dt: int, i: int)
    requires
        0 <= i < obs.len(),
    ensures
        scrolled_obstacles(obs.take(i + 1), dt) == if survives(obs[i], dt) {
            scrolled_obstacles(obs.take(i), dt).push(scroll_one(obs[i], dt))
        } else {
            scrolled_obstacles(obs.take(i), dt)
        },
{
    assert(obs.take(i + 1).drop_last() =~= obs.take(i));
    assert(obs.take(i + 1).last() == obs[i]);
}

/// Spawning for the first `j + 1` drawn anchors extends spawning for
/// the first `j` by one Top/Bottom pair.
pub proof fn lemma_spawned_take_step(id0: int, gaps: Seq<int>, j: int)
    requires
        0 <= j < gaps.len(),
    ensures
        spawned_obstacles(id0, gaps.take(j + 1)) == spawned_obstacles(id0, gaps.take(j)).push(
            spawned_top(id0 + 2 * j, gaps[j]),
        ).push(spawned_bottom(id0 + 2 * j, gaps[j])),
{
    assert(gaps.take(j + 1).drop_last() =~= gaps.take(j));
    assert(gaps.take(j + 1).last() == gaps[j]);
}

/// Elementwise shape of a spawned burst: the `i`-th spawned obstacle
/// carries id `id0 + i`, sits at the spawn x-coordinate, and its anchor
/// is the one drawn for its pair.
pub proof fn lemma_spawned_elements(id0: int, gaps: Seq<int>)
    ensures
        spawned_obstacles(id0, gaps).len() == 2 * gaps.len(),
        forall|i: int|
            0 <= i < 2 * gaps.len() ==> (#[trigger] spawned_obstacles(id0, gaps)[i]).id == id0 + i,
        forall|i: int|
            0 <= i < 2 * gaps.len() ==> (#[trigger] spawned_obstacles(id0, gaps)[i]).position_x
                == SPAWN_X_NANO as int,
        forall|i: int|
            0 <= i < 2 * gaps.len() ==> (#[trigger] spawned_obstacles(id0, gaps)[i]).gap_center_y
                == gaps[i / 2],
    decreases gaps.len(),
{
    if gaps.len() > 0 {
        lemma_spawned_elements(id0, gaps.drop_last());
        let j = gaps.len() - 1;
        assert forall|i: int| 0 <= i < 2 * gaps.len() implies (#[trigger] spawned_obstacles(
            id0,
            gaps,
        )[i]).gap_center_y == gaps[i / 2] by {
            if i < 2 * j {
                assert(gaps.drop_last()[i / 2] == gaps[i / 2]);
            } else {
                assert(i / 2 == j) by (nonlinear_arith)
                    requires 2 * j <= i < 2 * j + 2;
            }
        }
    }
}

/// A burst of `n` firings spawns exactly `2 * n` obstacles.
pub proof fn lemma_spawned_len(id0: int, gaps: Seq<int>)
    ensures
        spawned_obstacles(id0, gaps).len() == 2 * gaps.len(),
    decreases gaps.len(),
{
    if gaps.len() > 0 {
        lemma_spawned_len(id0, gaps.drop_last());
    }
}

} // verus!

//! The per-tick input signals the host hands in, and the observable
//! events a tick hands back for a presentation layer to render.

use vstd::prelude::*;
use crate::state::GameState;

verus! {

/// Abstract "pressed this tick" input signals. How they are read from a
/// device is the host's business.
#[derive(Clone, Copy, Debug, PartialEq, Eq, Structural)]
pub struct Inputs {
    pub flap_pressed: bool,
    pub start_pressed: bool,
}

/// One observable simulation event. A tick returns the events it
/// caused, in the order it caused them.
#[derive(Clone, Copy, Debug, PartialEq, Eq, Structural)]
pub enum Event {
    /// A new obstacle exists, at the given entity centre.
    ObstacleSpawned { id: u64, position_x: i64, position_y: i64 },
    /// The obstacle with this id scrolled past the despawn threshold.
    ObstacleDespawned { id: u64 },
    /// The scoreboard now reads this value (the sentinel -1 included).
    ScoreChanged { new_score: i64 },
    /// The state machine moved.
    StateChanged { from: GameState, to: GameState },
}

/// Mathematical image of `Event`, over unbounded integers.
pub ghost enum EventModel {
    ObstacleSpawned { id: int, position_x: int, position_y: int },
    ObstacleDespawned { id: int },
    ScoreChanged { new_score: int },
    StateChanged { from: GameState, to: GameState },
}

impl View for Event {
    type V = EventModel;

    open spec fn view(&self) -> EventModel {
        match *self {
            Event::ObstacleSpawned { id, position_x, position_y } => EventModel::ObstacleSpawned {
                id: id as int,
                position_x: position_x as int,
                position_y: position_y as int,
            },
            Event::ObstacleDespawned { id } => EventModel::ObstacleDespawned { id: id as int },
            Event::ScoreChanged { new_score } => EventModel::ScoreChanged {
                new_score: new_score as int,
            },
            Event::StateChanged { from, to } => EventModel::StateChanged { from: from, to: to },
        }
    }
}

/// The mathematical image of an event list.
pub open spec fn events_view(s: Seq<Event>) -> Seq<EventModel> {
    s.map_values(|e: Event| e@)
}

} // verus!

//! Simulation core of a single-screen arcade game: a bird falls under
//! gravity, rises on a flap input, and must pass through scrolling gap
//! obstacles. The crate holds the finite state machine over
//! Menu / Playing / GameOver, the fixed-rule physics integrator, the
//! timer-driven obstacle spawning and despawning pipeline, the
//! axis-aligned collision test, and the scoring rule. Presentation,
//! input devices and audio are left to the host, which talks to the
//! core through `Game::tick` and the event list it returns.
//!
//! All quantities are exact fixed-point integers:
//! - time deltas in microseconds,
//! - positions in nanopixels (10^-9 of a screen pixel),
//! - velocities in millipixels per second.
//! With these units every update rule of the game is a product or sum
//! of integers, so the contracts pin each coordinate down exactly.

pub mod constants;
pub mod state;
pub mod bird;
pub mod obstacle;
pub mod collision;
pub mod events;
pub mod model;
pub mod game;
pub mod rng;
pub mod laws;

pub use state::GameState;
pub use obstacle::{Obstacle, ObstacleKind};
pub use events::{Event, Inputs};
pub use bird::BirdBody;
pub use game::Game;

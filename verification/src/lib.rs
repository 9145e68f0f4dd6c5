//! A fixed-point flocking core: agents that steer inside a signed-distance
//! boundary, flock with each other and are tamed by a player-driven agent.
//!
//! Every scalar is an `i64` that counts 1/65536ths of a world unit (or of a
//! second, or of a unit weight), so every result is exact and repeatable.

pub mod fixed;
pub mod vec2;
pub mod moveable;
pub mod boid;
pub mod player;
pub mod simulation;
pub mod laws;
pub mod state;
pub mod level;

pub use boid::components::{Agent, Avoidance, Boid, BoidColor, TameState};
pub use boid::config::BoidConfig;
pub use boid::{
    calc_tamed_boids, calculate_boid_direction, despawn_collided_boids, update_boid_velocity,
    update_tamed_boids,
};
pub use level::{LevelId, LevelInfo, LevelManager, LevelRegistry};
pub use moveable::{move_moveables, DistanceField, Flip, FnField, Moveable, MoveableBounds, SdfBounds};
pub use player::{spawn_boid, spawn_player, PlayerInfo, TurnInput};
pub use simulation::tick;
pub use state::{GameControlCommand, GameOverReason, SimulationState};
pub use vec2::{Mat2, Vec2};

//! Simulation core of a 2D action game: bounded resource pools, procedural
//! level layout and grid addressing, enemy spawning, movement and attacks,
//! fire-breath area damage and the power-up loop.

pub mod app_state;
pub mod combat;
pub mod enemy;
pub mod fire_breath;
pub mod game;
pub mod geometry;
pub mod level;
mod random;
pub mod player;
pub mod power_up;
pub mod resource_pool;
pub mod timer;

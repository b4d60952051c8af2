//! A small grid world for reinforcement learning: one agent, one goal and one
//! trap on a rectangular board, with curriculum-controlled placement.

pub mod env;
pub mod grid;
pub mod laws;
pub mod model;
mod sampling;

pub use env::{Env, EnvError, Reward};
pub use grid::GridWorld;
pub use model::GridModel;

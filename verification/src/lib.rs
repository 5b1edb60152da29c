//! Neuro-evolution of feed-forward networks that steer agents in a
//! grid survival game: network representation, crossover and
//! mutation, per-agent simulation and fitness, island-based selection
//! and migration.

pub mod configs;
pub mod fbits;
pub mod game;
pub mod nn;
pub mod pop;
pub mod rng;
pub mod stream;
pub mod utils;

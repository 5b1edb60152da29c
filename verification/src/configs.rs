//! Fixed configuration, read once at process start.

use vstd::prelude::*;

verus! {

/// Width of the grid, walls included; playable columns are 1..=GRID_W-1.
pub const GRID_W: i32 = 25;

/// Height of the grid, walls included; playable rows are 1..=GRID_H-1.
pub const GRID_H: i32 = 25;

/// Agents per island.
pub const NUM_GAMES_PER_STREAM: usize = 1000;

/// Number of islands.
pub const NUM_STREAMS: usize = 1;

/// Base number of steps an agent may go without eating.
pub const NUM_SIM_STEPS: u64 = 100;

/// Percentage of an island's cohort replaced on injection.
pub const STREAM_REJUVENATION_PCT: usize = 10;

/// Wall-clock wait, in milliseconds, before an island counts as stagnant.
pub const STREAM_LOCAL_MAX_WAIT_MILLIS: u64 = 90_000;

/// Percentage of the cohort retained unmodified at a generation reset.
pub const POP_RETAINED_PCT: usize = 1;

/// Percentage of the cohort bred by crossover at a generation reset.
pub const POP_CHILDREN_PCT: usize = 50;

/// Percentage of the cohort created fresh at a generation reset.
pub const POP_RANDOM_PCT: usize = 20;

/// Percentage of the cohort retained and mutated at a generation reset.
pub const POP_RETAINED_MUTATED_PCT: usize = 29;

/// Per-weight mutation probability, as the ratio num/den.
pub const BRAIN_MUTATION_NUM: u32 = 1;

/// Per-weight mutation probability, as the ratio num/den.
pub const BRAIN_MUTATION_DEN: u32 = 10;

/// Bit pattern of the double 0.1: the largest magnitude of a mutation
/// perturbation.
pub const BRAIN_MUTATION_VARIATION_BITS: u64 = 0x3FB9_9999_9999_999A;

/// Nodes in the input layer: 4 directions times 3 vision features.
pub const INP_LAYER_SIZE: usize = 12;

/// Nodes in the hidden layer.
pub const HIDDEN_LAYER_SIZE: usize = 8;

/// Nodes in the output layer: one per direction.
pub const OUTPUT_LAYER_SIZE: usize = 4;

} // verus!

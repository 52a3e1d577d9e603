//! An Artificial Bee Colony (ABC) optimization engine with a verified core.
//!
//! A population of candidate solutions is iteratively improved by worker
//! steps (local search on a fixed slot) and observer steps (extra work on a
//! slot chosen with probability proportional to a scaled fitness), while
//! stagnant slots are discarded and regenerated from scratch (scouting).
//!
//! The caller supplies a [`Context`](context::Context) that knows how to
//! generate, evaluate and perturb solutions for its own problem. Fitness is
//! an ordered `u64`: callers working with real-valued objectives map them to
//! an order-preserving integer encoding before handing them to the engine.
//!
//! The engine itself is sequential; every step of the round logic, the
//! retry/scout bookkeeping and the best-candidate tracking carries a proved
//! contract. Randomized selection draws and channel sends go through small
//! trusted wrappers around `rand` and `std::sync::mpsc`.
#![verifier::loop_isolation(false)]

mod result;
mod task;
mod context;
mod candidate;
mod hive;

pub mod scaling;

pub use result::{Error, AbcResult};
pub use context::Context;
pub use candidate::{Candidate, WorkingCandidate};
pub use task::{Task, TaskGenerator};
pub use hive::{
    HiveBuilder, Hive, Colony, roulette_pick, slot_worked, colony_step, task_affects,
    drain_step, drain_reachable, fitness_of, eligible_count, eligible_prefix, eligible_total,
};

//! Grammar-driven decoding of byte chromosomes into particle-swarm velocity
//! update rules, and the bookkeeping of repeated optimisation trials.

pub mod ordering;
pub mod trials;
pub mod velocity;

pub use ordering::order_by_index;
pub use trials::run_trials;
pub use velocity::{DecodeError, ScalarOps, Velocity};

//! Verified core of a rowing-machine workout recorder.
//!
//! The library covers the protocol session of a serial rowing monitor:
//! the command/response framing of its ASCII register protocol, the
//! connection/workout state machine, per-register numeric decoding,
//! end-of-workout detection, and aggregate workout statistics.
//! Serial I/O, wall-clock pacing and CSV serialization are thin
//! collaborators that live outside this crate.

pub mod catalog;
mod clock;
pub mod engine;
pub mod frames;
pub mod parse;
pub mod render;
pub mod sample;
pub mod session;
pub mod stats;
pub mod summary;

pub use sample::{instant_workout_values_init, InstantWorkoutValues};
pub use summary::{global_workout_values_init, global_workout_values_finalize, GlobalWorkoutValues};
pub use session::{workout_context_init, WorkoutContext, WorkoutState};

//! A deterministic, tick-driven event-processing kernel that mediates between
//! sensor input, a slow out-of-process planner, and audible output.
//!
//! The reactor reduces events into a versioned state, schedules bounded side
//! effects, arbitrates user intents, gates output crystallization, and governs
//! long-horizon intent lifecycle, under a strict no-blocking contract: every
//! effect is returned to the driver, never performed here.
//!
//! All scores and confidences are fixed-point fractions of [`score::UNIT`];
//! see the `score` module.

pub mod score;
pub mod tick;
pub mod presence;
pub mod event;
pub mod intent;
pub mod memory;
pub mod latent;
pub mod segment;
pub mod planner;
pub mod state;
pub mod lhim;
pub mod gate;
pub mod realizer;
pub mod text;
pub mod arbitrator;
pub mod telemetry;
pub mod metrics;
pub mod scheduler;
pub mod cancel;
pub mod speech;
pub mod consolidator;
pub mod monitor;
pub mod vad;
pub mod alpha;
pub mod reactor;
pub mod laws;

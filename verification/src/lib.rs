//! A cycle-accurate model of a chaotic-map sound generator: logistic-map
//! iterators steer numerically controlled oscillators whose one-bit outputs
//! are time-multiplexed into a single stream, one sample per clock edge.
//!
//! Every stage is a small synchronous state machine.  A stage never updates
//! itself in place: `step_into` reads the current state and writes the state
//! after the clock edge into a second instance, so that no stage can observe
//! a sibling's already-updated registers.

pub mod bits;
pub mod error;
pub mod divider;
pub mod iterate;
pub mod nco;
pub mod mixer;
pub mod params;
pub mod synth;
pub mod decimate;
pub mod trace;

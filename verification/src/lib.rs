//! The control layer of a granular sampler.
//!
//! Once per audio frame the layer decides when a grain starts, at which
//! rate it plays, and how the modulation enters that rate. It owns no audio:
//! capturing, scheduling and rendering grains is the business of a
//! granulation engine, which is told what to do.
//!
//! All real-valued quantities are fixed-point numbers in millionths (see
//! [`fixed`]), so that every decision is exact and the same on every
//! machine.
//!
//! - [`multitable`]: the wavetable oscillator behind the modulation.
//! - [`periodic`], [`random`], [`trigger`]: the two trigger sources, and the
//!   pair of them that advances together.
//! - [`pitch`]: the held notes and the rate of each note.
//! - [`router`]: the waveform tables and the rate of a grain.
//! - [`gate`]: capturing against playing.
//! - [`frame`]: the orchestrator that runs all of the above once per frame.

pub mod fixed;
pub mod frame;
pub mod gate;
pub mod multitable;
pub mod periodic;
pub mod pitch;
pub mod random;
pub mod router;
pub mod trigger;

mod chance;

//! Sample-accurate parameter automation, wavetable layout, graph wiring and
//! buffer rendering for a small audio synthesis engine.
//!
//! The library decides and indexes; sample values themselves are carried
//! through it unchanged.

pub mod bank_registry;
pub mod clock;
pub mod node_table;
pub mod patch;
pub mod render;
pub mod schedule;
pub mod waveform;
pub mod wavetable;

pub use clock::AudioContext;
pub use patch::{Patch, PatchNode};
pub use schedule::{ParamSchedule, RampEvent, RampPoint};
pub use waveform::{InterpolationType, OscillatorType, RampType};
pub use wavetable::BankLayout;

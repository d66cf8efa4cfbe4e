use vstd::prelude::*;

verus! {

/// The shape of a periodic waveform.
#[derive(Clone, Copy, Debug, PartialEq, Eq, Hash, Structural)]
pub enum OscillatorType {
    Sine,
    Square,
    Sawtooth,
    Triangle,
}

/// How a wavetable is read between two stored samples.
#[derive(Clone, Copy, Debug, PartialEq, Eq, Structural)]
pub enum InterpolationType {
    Linear,
    Cubic,
    Simd,
}

/// The curve that an automation ramp follows.
#[derive(Clone, Copy, Debug, PartialEq, Eq, Structural)]
pub enum RampType {
    Linear,
    Exponential,
}

} // verus!

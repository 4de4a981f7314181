use vstd::prelude::*;
use crate::oscillator::PolyOscillator;

verus! {

/// The timing snapshot handed to every node while one sample is computed.
///
/// The playback position is the exact fraction `clock / sample_rate`: `clock`
/// counts the samples played since the counter last wrapped, and
/// `sample_rate` is the number of samples per second.
#[derive(Clone, Copy, Debug, PartialEq, Eq, Structural)]
pub struct SamplingContext {
    pub clock: u32,
    pub sample_rate: u32,
}

impl SamplingContext {
    /// The position lies in `[0, 1)`: the rate is positive and the counter is
    /// below it.
    pub open spec fn wf(self) -> bool {
        self.clock < self.sample_rate
    }
}

/// The shape of a periodic waveform.
#[derive(Clone, Copy, Debug, PartialEq, Eq, Structural)]
pub enum WaveType {
    Sine,
    Square,
    Sawtooth,
    Triangle,
}

/// A stateless waveform source.
///
/// `freq` (in Hz) and `offset` (in cycles) are IEEE 754 single-precision
/// numbers held as their bit patterns: the core carries them through and
/// never computes with them.
#[derive(Clone, Copy, Debug, PartialEq, Eq, Structural)]
pub struct WaveGenerator {
    pub freq: u32,
    pub offset: u32,
    pub wave_type: WaveType,
}

/// A mixer. Its output is the sum of its resolved inputs: the values that the
/// graph supplies, followed by the values of the child nodes it owns.
pub struct Sum {
    pub nodes: Vec<Node>,
}

/// A node of the signal graph: a unit that produces one sample per call from
/// the timing context and its resolved inputs.
pub enum Node {
    Wave(WaveGenerator),
    Mixer(Sum),
    Poly(PolyOscillator),
}

} // verus!

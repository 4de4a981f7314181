//! A modular synthesizer core: a signal graph of sound-producing nodes that is
//! evaluated once per output sample, the clock that times the samples, and
//! the note table of a polyphonic oscillator driven by note-on and note-off
//! events.
//!
//! The verified core does no arithmetic on sample values. It decides what is
//! evaluated, on which inputs and in which order; the arithmetic that turns a
//! node and its inputs into a sample is handed in by the caller as a function
//! value, and the contracts speak of that function through its own contract.

pub mod clock;
pub mod eval;
pub mod events;
pub mod graph;
pub mod meta;
pub mod nodes;
pub mod oscillator;

pub use clock::SampleClock;
pub use events::{decode_message, NoteEvent};
pub use eval::sample_node;
pub use graph::{Graph, GraphError, GraphNode};
pub use meta::NodeMetaData;
pub use nodes::{Node, SamplingContext, Sum, WaveGenerator, WaveType};
pub use oscillator::{semitone_offset, PolyOscillator};

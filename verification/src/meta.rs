use vstd::prelude::*;
use crate::nodes::{WaveGenerator, WaveType};

verus! {

/// What a node shows of itself to an editor: its name and the names of its
/// input and output ports.
pub trait NodeMetaData {
    /// The name, as `get_name` gives it.
    spec fn name(&self) -> Seq<char>;

    /// The input ports, as `get_inputs` gives them.
    spec fn input_ports(&self) -> Seq<Seq<char>>;

    /// The output ports, as `get_outputs` gives them.
    spec fn output_ports(&self) -> Seq<Seq<char>>;

    fn get_name(&self) -> (name: &'static str)
        ensures
            name@ == self.name(),
    ;

    fn get_inputs(&self) -> (ports: Vec<&'static str>)
        ensures
            ports@.len() == self.input_ports().len(),
            forall|i: int| 0 <= i < ports@.len() ==> (#[trigger] ports@[i])@ == self.input_ports()[i],
    ;

    fn get_outputs(&self) -> (ports: Vec<&'static str>)
        ensures
            ports@.len() == self.output_ports().len(),
            forall|i: int| 0 <= i < ports@.len() ==> (#[trigger] ports@[i])@ == self.output_ports()[i],
    ;
}

impl NodeMetaData for WaveGenerator {
    open spec fn name(&self) -> Seq<char> {
        match self.wave_type {
            WaveType::Sine => "Sine wave"@,
            WaveType::Square => "Square wave"@,
            WaveType::Sawtooth => "Sawtooth wave"@,
            WaveType::Triangle => "Triangle wave"@,
        }
    }

    open spec fn input_ports(&self) -> Seq<Seq<char>> {
        seq!["freq"@]
    }

    open spec fn output_ports(&self) -> Seq<Seq<char>> {
        seq!["out"@]
    }

    fn get_name(&self) -> (name: &'static str) {
        match self.wave_type {
            WaveType::Sine => "Sine wave",
            WaveType::Square => "Square wave",
            WaveType::Sawtooth => "Sawtooth wave",
            WaveType::Triangle => "Triangle wave",
        }
    }

    fn get_inputs(&self) -> (ports: Vec<&'static str>) {
        let mut ports: Vec<&'static str> = Vec::new();
        ports.push("freq");
        ports
    }

    fn get_outputs(&self) -> (ports: Vec<&'static str>) {
        let mut ports: Vec<&'static str> = Vec::new();
        ports.push("out");
        ports
    }
}

} // verus!

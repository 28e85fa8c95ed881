use vstd::prelude::*;

verus! {

/// Input and output channel counts of a unit.
#[derive(Clone, Copy, Debug, PartialEq, Eq, Structural)]
pub struct IOConfig {
    pub inputs: usize,
    pub outputs: usize,
}

impl Default for IOConfig {
    /// Stereo in, stereo out.
    fn default() -> (r: IOConfig)
        ensures
            r.inputs == 2,
            r.outputs == 2,
    {
        IOConfig { inputs: 2, outputs: 2 }
    }
}

/// The backend kind of a unit.
#[derive(Clone, Copy, Debug, PartialEq, Eq, Structural)]
pub enum PluginType {
    Native,
    Clap,
    Vst,
}

/// How a parameter's value is read.
#[derive(Clone, Debug)]
pub enum ParameterType {
    Float,
    Int,
    Bool,
    Enum(Vec<String>),
}

/// Static description of a unit, for display and identification.
#[derive(Clone, Debug)]
pub struct PluginInfo {
    pub name: String,
    pub vendor: String,
    pub url: String,
    pub plugin_type: PluginType,
    pub unique_id: String,
}

impl PluginInfo {
    /// A field-by-field copy.
    pub fn duplicate(&self) -> (r: PluginInfo)
        ensures
            r == *self,
    {
        PluginInfo {
            name: self.name.clone(),
            vendor: self.vendor.clone(),
            url: self.url.clone(),
            plugin_type: self.plugin_type,
            unique_id: self.unique_id.clone(),
        }
    }
}

/// The oscillator shape of a wave generator.
#[derive(Clone, Copy, Debug, PartialEq, Eq, Structural)]
pub enum Waveform {
    Sine,
    Square,
    Sawtooth,
    Triangle,
}

impl Waveform {
    /// The shape with index `v` (0 sine, 1 square, 2 sawtooth, 3 triangle); any other
    /// index is a sine.
    pub fn from_index(v: u32) -> (r: Waveform)
        ensures
            r == Waveform::from_index_spec(v),
    {
        match v {
            1 => Waveform::Square,
            2 => Waveform::Sawtooth,
            3 => Waveform::Triangle,
            _ => Waveform::Sine,
        }
    }

    /// The index of the shape; `from_index` gives the shape back.
    pub fn index(&self) -> (r: u32)
        ensures
            r < 4,
            Waveform::from_index_spec(r) == *self,
    {
        match self {
            Waveform::Sine => 0,
            Waveform::Square => 1,
            Waveform::Sawtooth => 2,
            Waveform::Triangle => 3,
        }
    }

    pub open spec fn from_index_spec(v: u32) -> Waveform {
        if v == 1 {
            Waveform::Square
        } else if v == 2 {
            Waveform::Sawtooth
        } else if v == 3 {
            Waveform::Triangle
        } else {
            Waveform::Sine
        }
    }
}

} // verus!

//! The player's output and input ports, as plain values.
//!
//! An output is shown to users, and matched against configuration, by its
//! display name: the port name for a MIDI output, fixed names for the built-in
//! synthesizer and for the silent output.

use vstd::prelude::*;

verus! {

/// A MIDI port as the port enumeration reports it.
#[derive(Debug, PartialEq, Eq)]
pub struct MidiPortInfo {
    /// The port's display name.
    pub name: String,
}

impl Clone for MidiPortInfo {
    fn clone(&self) -> (copy: Self)
        ensures
            copy == *self,
    {
        MidiPortInfo { name: self.name.clone() }
    }
}

/// Where the player sends its notes.
#[derive(Debug, PartialEq, Eq)]
pub enum OutputDescriptor {
    /// The built-in synthesizer, with the sound font it plays.
    Synth(Option<String>),
    /// An external MIDI output port.
    MidiOut(MidiPortInfo),
    /// No sound at all.
    DummyOutput,
}

impl Clone for OutputDescriptor {
    fn clone(&self) -> (copy: Self)
        ensures
            copy == *self,
    {
        match self {
            OutputDescriptor::Synth(font) => OutputDescriptor::Synth(
                match font {
                    Some(path) => Some(path.clone()),
                    None => None,
                },
            ),
            OutputDescriptor::MidiOut(info) => OutputDescriptor::MidiOut(info.clone()),
            OutputDescriptor::DummyOutput => OutputDescriptor::DummyOutput,
        }
    }
}

/// The display name of an output.
pub open spec fn display_name_of(output: OutputDescriptor) -> Seq<char> {
    match output {
        OutputDescriptor::Synth(_) => "Buildin Synth"@,
        OutputDescriptor::MidiOut(info) => info.name@,
        OutputDescriptor::DummyOutput => "No Output"@,
    }
}

impl OutputDescriptor {
    /// The display name of this output.
    pub fn display_name(&self) -> (name: String)
        ensures
            name@ == display_name_of(*self),
    {
        match self {
            OutputDescriptor::Synth(_) => String::from_str("Buildin Synth"),
            OutputDescriptor::MidiOut(info) => info.name.clone(),
            OutputDescriptor::DummyOutput => String::from_str("No Output"),
        }
    }
}

} // verus!

use crate::exporter::Exporter;
use vstd::prelude::*;

verus! {

/// A request to the connection.
pub enum Command {
    /// Load the bank file at `path` and give `channel` its first preset.
    LoadSoundFont { channel: u8, path: String },
    /// Give `channel` a preset of the loaded file at `path`, by the place of
    /// its bank among the banks of the file and its place in the bank.
    SetProgram { channel: u8, path: String, bank_index: usize, preset_index: usize },
    /// Take the program of `channel` away.
    UnsetProgram { channel: u8 },
    /// Set the master gain, a fraction of the highest volume.
    SetGain { gain: u8 },
    /// Strike a key.
    NoteOn { channel: u8, key: u8, velocity: u8 },
    /// Release a key.
    NoteOff { channel: u8, key: u8 },
    /// Play the music from the pulse `time`.
    PlayFrom { time: u64 },
    /// Stop the music.
    Stop,
    /// Export the music to `path`.
    Export { path: String, settings: Exporter },
}

/// What is left to do for a request once the connection has done its part.
#[derive(Clone, Copy, Debug, PartialEq, Eq, Structural)]
pub enum Outcome {
    /// Nothing.
    Done,
    /// The bank file of the request is not loaded: it is to be read and
    /// handed to the connection.
    LoadFont,
    /// The gain of the request is recorded: the synthesizer is to be told.
    ApplyGain,
    /// The events of the request are to be handed to the synthesizer, in
    /// their order.
    Send,
}

} // verus!

use vstd::prelude::*;

verus! {

/// The highest key, velocity or preset number that MIDI can express.
pub const MAX_VOLUME: u8 = 127;

/// A MIDI instruction for the synthesizer.
#[derive(Clone, Copy, Debug, PartialEq, Eq, Structural)]
pub enum MidiEvent {
    /// Start to play a note.
    NoteOn { channel: u8, key: u8, vel: u8 },
    /// Release a note.
    NoteOff { channel: u8, key: u8 },
    /// Release every note of a channel.
    AllNotesOff { channel: u8 },
    /// Silence a channel at once.
    AllSoundOff { channel: u8 },
}

impl MidiEvent {
    /// The channel that the event is addressed to.
    pub open spec fn spec_channel(self) -> u8 {
        match self {
            MidiEvent::NoteOn { channel, .. } => channel,
            MidiEvent::NoteOff { channel, .. } => channel,
            MidiEvent::AllNotesOff { channel } => channel,
            MidiEvent::AllSoundOff { channel } => channel,
        }
    }

    /// The channel that the event is addressed to.
    #[verifier::when_used_as_spec(spec_channel)]
    pub fn channel(self) -> (c: u8)
        ensures
            c == self.spec_channel(),
    {
        match self {
            MidiEvent::NoteOn { channel, .. } => channel,
            MidiEvent::NoteOff { channel, .. } => channel,
            MidiEvent::AllNotesOff { channel } => channel,
            MidiEvent::AllSoundOff { channel } => channel,
        }
    }
}

} // verus!

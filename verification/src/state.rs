use crate::index::Index;
use crate::music::Music;
use crate::time::Time;
use vstd::prelude::*;

verus! {

/// A panel of the application.
#[derive(Clone, Copy, Debug, PartialEq, Eq, Structural)]
pub enum PanelType {
    MainMenu,
    Music,
    OpenFile,
    PianoRoll,
    Tracks,
    ExportState,
    ExportSettings,
    Quit,
    Links,
}

/// What the piano roll does with input.
#[derive(Clone, Copy, Debug, PartialEq, Eq, Structural)]
pub enum PianoRollMode {
    Edit,
    Select,
    Time,
    View,
}

/// How far an edit reaches.
#[derive(Clone, Copy, Debug, PartialEq, Eq, Structural)]
pub enum EditMode {
    Normal,
    Quick,
    Precise,
}

/// The notes of the selected track that are selected, by their positions.
pub enum SelectMode {
    /// At most one note.
    Single(Option<usize>),
    /// Any number of notes.
    Many(Option<Vec<usize>>),
}

impl SelectMode {
    /// The positions of the selected notes: none where nothing is selected.
    pub open spec fn spec_note_indices(&self) -> Option<Seq<usize>> {
        match self {
            SelectMode::Single(Some(index)) => Some(seq![*index]),
            SelectMode::Single(None) => None,
            SelectMode::Many(Some(indices)) => Some(indices@),
            SelectMode::Many(None) => None,
        }
    }

    /// The positions of the selected notes: none where nothing is selected.
    pub fn get_note_indices(&self) -> (indices: Option<Vec<usize>>)
        ensures
            match indices {
                Some(i) => self.spec_note_indices() == Some(i@),
                None => self.spec_note_indices().is_none(),
            },
    {
        match self {
            SelectMode::Single(Some(index)) => {
                let mut indices: Vec<usize> = Vec::new();
                indices.push(*index);
                proof {
                    assert(indices@ =~= seq![*index]);
                }
                Some(indices)
            },
            SelectMode::Single(None) => None,
            SelectMode::Many(Some(indices)) => {
                let mut copy: Vec<usize> = Vec::new();
                let mut i: usize = 0;
                while i < indices.len()
                    invariant
                        i <= indices.len(),
                        copy@ == indices@.subrange(0, i as int),
                    decreases indices.len() - i,
                {
                    copy.push(indices[i]);
                    proof {
                        assert(copy@ =~= indices@.subrange(0, i + 1));
                    }
                    i += 1;
                }
                proof {
                    assert(indices@.subrange(0, indices.len() as int) =~= indices@);
                }
                Some(copy)
            },
            SelectMode::Many(None) => None,
        }
    }

    /// The same mode with nothing selected.
    pub open spec fn spec_deselected(&self) -> SelectMode {
        match self {
            SelectMode::Single(_) => SelectMode::Single(None),
            SelectMode::Many(_) => SelectMode::Many(None),
        }
    }
}

/// How input is taken.
pub struct InputState {
    /// Whether played notes are added to the track.
    pub armed: bool,
    /// Whether keys are read as text.
    pub alphanumeric_input: bool,
    /// Whether undo and redo are open.
    pub can_undo: bool,
    /// The length of a new note, in pulses.
    pub beat: u64,
    /// The velocity of a new note.
    pub volume: u8,
    /// Whether new notes take `volume` in place of the velocity played.
    pub use_volume: bool,
}

/// What the application shows and edits.
pub struct State {
    /// The music.
    pub music: Music,
    /// The tempo and the places in the music.
    pub time: Time,
    /// How input is taken.
    pub input: InputState,
    /// The panels that are open.
    pub panels: Vec<PanelType>,
    /// The position of the panel that has the focus.
    pub focus: Index,
    /// The selected notes.
    pub select_mode: SelectMode,
    /// The mode of the piano roll.
    pub piano_roll_mode: PianoRollMode,
    /// Whether something changed since the music was saved.
    pub unsaved_changes: bool,
}

/// Leaves no note selected, and the mode of selection as it is.
pub fn deselect(state: &mut State)
    ensures
        final(state).select_mode == old(state).select_mode.spec_deselected(),
        final(state).music == old(state).music,
        final(state).time == old(state).time,
        final(state).input == old(state).input,
        final(state).panels == old(state).panels,
        final(state).focus == old(state).focus,
        final(state).piano_roll_mode == old(state).piano_roll_mode,
        final(state).unsaved_changes == old(state).unsaved_changes,
{
    let deselected = match &state.select_mode {
        SelectMode::Single(_) => SelectMode::Single(None),
        SelectMode::Many(_) => SelectMode::Many(None),
    };
    state.select_mode = deselected;
}

} // verus!

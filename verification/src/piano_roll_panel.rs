use crate::index::{Index, IndexView};
use crate::music::{MidiTrack, Note};
use crate::state::{deselect, EditMode, InputState, PianoRollMode, State};
use vstd::prelude::*;

verus! {

/// How far an edit reaches in each mode of editing.
pub struct EditModeDeltas {
    /// In the quick mode, time moves by the beat times this.
    pub quick_time_factor: u64,
    /// In the precise mode, time moves by this many pulses.
    pub precise_time: u64,
    /// In the normal mode, a note moves by this many half-steps.
    pub normal_note: u8,
    /// In the quick mode, a note moves by this many half-steps.
    pub quick_note: u8,
    /// In the precise mode, a note moves by this many half-steps.
    pub precise_note: u8,
    /// In the normal mode, the volume changes by this.
    pub normal_volume: u8,
    /// In the quick mode, the volume changes by this.
    pub quick_volume: u8,
    /// In the precise mode, the volume changes by this.
    pub precise_volume: u8,
}

impl EditModeDeltas {
    /// The step of time in `mode`: the beat, the beat times the quick factor,
    /// or the precise time. A step beyond what 64 bits can express is held to
    /// that.
    pub open spec fn spec_dt(&self, mode: EditMode, beat: u64) -> u64 {
        match mode {
            EditMode::Normal => beat,
            EditMode::Quick => if beat * self.quick_time_factor > u64::MAX {
                u64::MAX
            } else {
                (beat * self.quick_time_factor) as u64
            },
            EditMode::Precise => self.precise_time,
        }
    }

    /// The step of time in `mode`.
    pub fn get_dt(&self, mode: &EditMode, input: &InputState) -> (dt: u64)
        ensures
            dt == self.spec_dt(*mode, input.beat),
    {
        match mode {
            EditMode::Normal => input.beat,
            EditMode::Quick => match input.beat.checked_mul(self.quick_time_factor) {
                Some(dt) => dt,
                None => u64::MAX,
            },
            EditMode::Precise => self.precise_time,
        }
    }

    /// The step of a note in `mode`, in half-steps.
    pub fn get_dn(&self, mode: &EditMode) -> (dn: u8)
        ensures
            dn == match *mode {
                EditMode::Normal => self.normal_note,
                EditMode::Quick => self.quick_note,
                EditMode::Precise => self.precise_note,
            },
    {
        match mode {
            EditMode::Normal => self.normal_note,
            EditMode::Quick => self.quick_note,
            EditMode::Precise => self.precise_note,
        }
    }

    /// The step of the volume in `mode`.
    pub fn get_dv(&self, mode: &EditMode) -> (dv: u8)
        ensures
            dv == match *mode {
                EditMode::Normal => self.normal_volume,
                EditMode::Quick => self.quick_volume,
                EditMode::Precise => self.precise_volume,
            },
    {
        match mode {
            EditMode::Normal => self.normal_volume,
            EditMode::Quick => self.quick_volume,
            EditMode::Precise => self.precise_volume,
        }
    }
}

/// The notes of `notes` at the places of `indices` that `notes` has, in the
/// order of `indices`.
pub open spec fn notes_at(notes: Seq<Note>, indices: Seq<usize>) -> Seq<Note>
    decreases indices.len(),
{
    if indices.len() == 0 {
        Seq::<Note>::empty()
    } else if indices.last() < notes.len() {
        notes_at(notes, indices.drop_last()).push(notes[indices.last() as int])
    } else {
        notes_at(notes, indices.drop_last())
    }
}

/// The first `upto` notes of `notes` without those at the places of
/// `indices`.
pub open spec fn notes_but(notes: Seq<Note>, indices: Seq<usize>, upto: nat) -> Seq<Note>
    decreases upto,
{
    if upto == 0 {
        Seq::<Note>::empty()
    } else if indices.contains((upto - 1) as usize) {
        notes_but(notes, indices, (upto - 1) as nat)
    } else {
        notes_but(notes, indices, (upto - 1) as nat).push(notes[upto - 1])
    }
}

/// The notes of the selected track of `state` that are selected: none where
/// no track or no note is selected.
pub open spec fn selected_notes(state: State) -> Option<Seq<Note>> {
    match (state.music.spec_selected_track(), state.select_mode.spec_note_indices()) {
        (Some(track), Some(indices)) => Some(notes_at(track.notes@, indices)),
        _ => None,
    }
}

/// A `PianoRollPanel` as plain values.
pub struct PianoRollPanelView {
    /// The beats on offer, in pulses.
    pub beats: Seq<u64>,
    /// The place of the beat that is chosen.
    pub beat: IndexView,
    /// The notes that were copied.
    pub copied_notes: Seq<Note>,
}

impl PianoRollPanelView {
    /// A beat is chosen among the beats on offer.
    pub open spec fn wf(self) -> bool {
        &&& self.beats.len() > 0
        &&& self.beat.length == self.beats.len()
        &&& self.beat.index < self.beats.len()
    }
}

/// The piano roll: the beats that the length of a new note can be set to,
/// and the notes that were copied.
pub struct PianoRollPanel {
    beats: Vec<u64>,
    beat: Index,
    copied_notes: Vec<Note>,
}

impl View for PianoRollPanel {
    type V = PianoRollPanelView;

    closed spec fn view(&self) -> PianoRollPanelView {
        PianoRollPanelView {
            beats: self.beats@,
            beat: self.beat@,
            copied_notes: self.copied_notes@,
        }
    }
}

impl PianoRollPanel {
    /// A panel that offers the beats `beats` and has chosen `beat`, which is
    /// added behind the others where it is not among them. Nothing is copied.
    pub fn new(beat: &u64, beats: Vec<u64>) -> (panel: PianoRollPanel)
        ensures
            panel@.wf(),
            panel@.beats == if beats@.contains(*beat) {
                beats@
            } else {
                beats@.push(*beat)
            },
            panel@.beats[panel@.beat.index as int] == *beat,
            forall|k: int| 0 <= k < panel@.beat.index ==> panel@.beats[k] != *beat,
            panel@.copied_notes == Seq::<Note>::empty(),
    {
        let mut beats = beats;
        let mut position: usize = 0;
        while position < beats.len() && beats[position] != *beat
            invariant
                position <= beats.len(),
                forall|k: int| 0 <= k < position ==> beats[k] != *beat,
            decreases beats.len() - position,
        {
            position += 1;
        }
        if position == beats.len() {
            beats.push(*beat);
        }
        let index = Index::new(position, beats.len());
        PianoRollPanel { beats, beat: index, copied_notes: Vec::new() }
    }

    /// The beat that is chosen, in pulses.
    pub fn get_beat(&self) -> (beat: u64)
        requires
            self@.wf(),
        ensures
            beat == self@.beats[self@.beat.index as int],
    {
        self.beats[self.beat.get()]
    }

    /// The number of notes that were copied.
    pub fn num_copied(&self) -> (n: usize)
        ensures
            n == self@.copied_notes.len(),
    {
        self.copied_notes.len()
    }

    /// The copied note at the place `index`.
    pub fn get_copied(&self, index: usize) -> (note: Option<Note>)
        ensures
            index < self@.copied_notes.len() ==> note == Some(self@.copied_notes[index as int]),
            index >= self@.copied_notes.len() ==> note.is_none(),
    {
        if index < self.copied_notes.len() {
            Some(self.copied_notes[index])
        } else {
            None
        }
    }

    /// Chooses the next beat, or the one before, around the ends of the
    /// list, and makes it the length of a new note.
    pub fn set_input_beat(&mut self, up: bool, state: &mut State)
        requires
            old(self)@.wf(),
        ensures
            final(self)@.wf(),
            final(self)@ == (PianoRollPanelView {
                beat: old(self)@.beat.increment(up),
                ..old(self)@
            }),
            final(state).input == (InputState {
                beat: final(self)@.beats[final(self)@.beat.index as int],
                ..old(state).input
            }),
            final(state).music == old(state).music,
            final(state).time == old(state).time,
            final(state).panels == old(state).panels,
            final(state).focus == old(state).focus,
            final(state).select_mode == old(state).select_mode,
            final(state).piano_roll_mode == old(state).piano_roll_mode,
            final(state).unsaved_changes == old(state).unsaved_changes,
    {
        self.beat.increment(up);
        state.input.beat = self.beats[self.beat.get()];
    }

    /// Sets the mode of the piano roll.
    pub fn set_mode(mode: PianoRollMode, state: &mut State)
        ensures
            final(state).piano_roll_mode == mode,
            final(state).music == old(state).music,
            final(state).time == old(state).time,
            final(state).input == old(state).input,
            final(state).panels == old(state).panels,
            final(state).focus == old(state).focus,
            final(state).select_mode == old(state).select_mode,
            final(state).unsaved_changes == old(state).unsaved_changes,
    {
        state.piano_roll_mode = mode;
    }

    /// Copies the selected notes. Where no track or no note is selected, what
    /// was copied stays.
    pub fn copy_notes(&mut self, state: &State)
        ensures
            final(self)@ == (PianoRollPanelView {
                copied_notes: match selected_notes(*state) {
                    Some(notes) => notes,
                    None => old(self)@.copied_notes,
                },
                ..old(self)@
            }),
    {
        let track = match state.music.get_selected_track() {
            Some(track) => track,
            None => {
                return ;
            },
        };
        let indices = match state.select_mode.get_note_indices() {
            Some(indices) => indices,
            None => {
                return ;
            },
        };
        let mut notes: Vec<Note> = Vec::new();
        let mut i: usize = 0;
        proof {
            assert(indices@.subrange(0, 0) =~= Seq::<usize>::empty());
        }
        while i < indices.len()
            invariant
                i <= indices.len(),
                notes@ == notes_at(track.notes@, indices@.subrange(0, i as int)),
            decreases indices.len() - i,
        {
            proof {
                assert(indices@.subrange(0, i + 1).drop_last() =~= indices@.subrange(0, i as int));
            }
            if indices[i] < track.notes.len() {
                notes.push(track.notes[indices[i]]);
            }
            i += 1;
        }
        proof {
            assert(indices@.subrange(0, indices.len() as int) =~= indices@);
        }
        self.copied_notes = notes;
    }

    /// Deletes the selected notes from the selected track and leaves no
    /// note selected. Says whether a track and a note were selected; if not,
    /// nothing changes.
    pub fn delete_notes(state: &mut State) -> (deleted: bool)
        ensures
            deleted == selected_notes(*old(state)).is_some(),
            !deleted ==> *final(state) == *old(state),
            deleted ==> {
                let selected = old(state).music.selected.unwrap() as int;
                let track = old(state).music.midi_tracks@[selected];
                &&& final(state).music.selected == old(state).music.selected
                &&& final(state).music.midi_tracks@.len() == old(state).music.midi_tracks@.len()
                &&& forall|k: int|
                    0 <= k < old(state).music.midi_tracks@.len() && k != selected
                        ==> final(state).music.midi_tracks@[k] == old(state).music.midi_tracks@[k]
                &&& final(state).music.midi_tracks@[selected].notes@ == notes_but(
                    track.notes@,
                    old(state).select_mode.spec_note_indices().unwrap(),
                    track.notes@.len(),
                )
                &&& final(state).music.midi_tracks@[selected].channel == track.channel
                &&& final(state).music.midi_tracks@[selected].gain == track.gain
                &&& final(state).music.midi_tracks@[selected].mute == track.mute
                &&& final(state).music.midi_tracks@[selected].solo == track.solo
                &&& final(state).select_mode == old(state).select_mode.spec_deselected()
                &&& final(state).time == old(state).time
                &&& final(state).input == old(state).input
                &&& final(state).panels == old(state).panels
                &&& final(state).focus == old(state).focus
                &&& final(state).piano_roll_mode == old(state).piano_roll_mode
                &&& final(state).unsaved_changes == old(state).unsaved_changes
            },
    {
        let indices = match state.select_mode.get_note_indices() {
            Some(indices) => indices,
            None => {
                return false;
            },
        };
        let selected = match state.music.selected {
            Some(selected) => selected,
            None => {
                return false;
            },
        };
        if selected >= state.music.midi_tracks.len() {
            return false;
        }
        let ghost before = state.music.midi_tracks@;
        let mut track = MidiTrack::new(0);
        std::mem::swap(&mut track, &mut state.music.midi_tracks[selected]);
        let mut kept: Vec<Note> = Vec::new();
        let n: usize = track.notes.len();
        let mut i: usize = 0;
        while i < n
            invariant
                n == track.notes.len(),
                i <= n,
                kept@ == notes_but(track.notes@, indices@, i as nat),
            decreases n - i,
        {
            let mut chosen = false;
            let mut j: usize = 0;
            while j < indices.len() && !chosen
                invariant
                    j <= indices.len(),
                    !chosen ==> forall|k: int| 0 <= k < j ==> indices@[k] != i,
                    chosen ==> indices@.contains(i),
                decreases indices.len() - j + if chosen {
                    0int
                } else {
                    1int
                },
            {
                if indices[j] == i {
                    chosen = true;
                    proof {
                        assert(indices@[j as int] == i);
                    }
                } else {
                    j += 1;
                }
            }
            if !chosen {
                kept.push(track.notes[i]);
            }
            i += 1;
        }
        track.notes = kept;
        std::mem::swap(&mut track, &mut state.music.midi_tracks[selected]);
        deselect(state);
        true
    }
}

/// Selects the track behind the selected one, where `next` is set and there
/// is one, or else the one before it, where `previous` is set and there is
/// one, and leaves no note selected. Says whether the selection moved; if
/// not, nothing changes.
pub fn select_track(state: &mut State, next: bool, previous: bool) -> (moved: bool)
    ensures
        moved == (final(state).music.selected != old(state).music.selected),
        final(state).music.selected == match old(state).music.selected {
            Some(selected) => if next && selected + 1 < old(state).music.midi_tracks@.len() {
                Some((selected + 1) as usize)
            } else if previous && selected > 0 {
                Some((selected - 1) as usize)
            } else {
                Some(selected)
            },
            None => None,
        },
        final(state).select_mode == if moved {
            old(state).select_mode.spec_deselected()
        } else {
            old(state).select_mode
        },
        final(state).music.midi_tracks == old(state).music.midi_tracks,
        final(state).time == old(state).time,
        final(state).input == old(state).input,
        final(state).panels == old(state).panels,
        final(state).focus == old(state).focus,
        final(state).piano_roll_mode == old(state).piano_roll_mode,
        final(state).unsaved_changes == old(state).unsaved_changes,
{
    let n: usize = state.music.midi_tracks.len();
    match state.music.selected {
        Some(selected) => {
            if next && selected < n && selected + 1 < n {
                state.music.selected = Some(selected + 1);
                deselect(state);
                true
            } else if previous && selected > 0 {
                state.music.selected = Some(selected - 1);
                deselect(state);
                true
            } else {
                false
            }
        },
        None => false,
    }
}

} // verus!

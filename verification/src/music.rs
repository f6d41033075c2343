use crate::midi_event::MAX_VOLUME;
use crate::timed::{
    is_stable_sort_of, lemma_filter_of_empty, lemma_filter_push, sort_by_time, stable_sort, Timed,
};
use vstd::prelude::*;

verus! {

/// A note of a track. Times are in pulses.
#[derive(Clone, Copy, Debug, PartialEq, Eq, Structural)]
pub struct Note {
    /// The MIDI key.
    pub note: u8,
    /// The velocity at which the key is struck.
    pub velocity: u8,
    /// The pulse at which the note starts.
    pub start: u64,
    /// The pulse at which the note ends.
    pub end: u64,
}

impl Timed for Note {
    open spec fn spec_time(&self) -> u64 {
        self.start
    }

    fn time(&self) -> (t: u64) {
        self.start
    }
}

/// `velocity` scaled by `gain`, a fraction of `MAX_VOLUME`: rounded down, and
/// held to what a byte can express.
pub open spec fn spec_scale_velocity(velocity: u8, gain: u8) -> u8 {
    let scaled = (velocity as int * gain as int) / (MAX_VOLUME as int);
    if scaled > 255 {
        255u8
    } else {
        scaled as u8
    }
}

/// Scales `velocity` by `gain`, a fraction of `MAX_VOLUME`.
pub fn scale_velocity(velocity: u8, gain: u8) -> (scaled: u8)
    ensures
        scaled == spec_scale_velocity(velocity, gain),
        gain == MAX_VOLUME ==> scaled == velocity,
        gain <= MAX_VOLUME ==> scaled <= velocity,
{
    assert(velocity as int * gain as int <= 255 * 255) by (nonlinear_arith)
        requires
            velocity <= 255,
            gain <= 255,
    ;
    let product: u32 = velocity as u32 * gain as u32;
    let scaled: u32 = product / (MAX_VOLUME as u32);
    assert(gain <= MAX_VOLUME ==> scaled <= velocity) by (nonlinear_arith)
        requires
            scaled == (velocity as int * gain as int) / 127,
            MAX_VOLUME == 127,
    ;
    assert(gain == MAX_VOLUME ==> scaled == velocity) by (nonlinear_arith)
        requires
            scaled == (velocity as int * gain as int) / 127,
            MAX_VOLUME == 127,
    ;
    if scaled > 255 {
        255
    } else {
        scaled as u8
    }
}

/// `note` as it sounds on a track of gain `gain`.
pub open spec fn scaled_note(note: Note, gain: u8) -> Note {
    Note { velocity: spec_scale_velocity(note.velocity, gain), ..note }
}

/// Turns each note into the note as it sounds at `gain`.
pub open spec fn scaling(gain: u8) -> spec_fn(Note) -> Note {
    |n: Note| scaled_note(n, gain)
}

/// Holds of the notes that start at `start` or later.
pub open spec fn starts_from(start: u64) -> spec_fn(Note) -> bool {
    |n: Note| n.start >= start
}

/// The latest end of the notes of `notes`, and zero where there is none.
pub open spec fn last_end(notes: Seq<Note>) -> u64
    decreases notes.len(),
{
    if notes.len() == 0 {
        0
    } else {
        let before = last_end(notes.drop_last());
        if notes.last().end > before {
            notes.last().end
        } else {
            before
        }
    }
}

/// No note of `notes` ends after `last_end(notes)`, and a note ends there
/// unless there is none.
pub proof fn lemma_last_end(notes: Seq<Note>)
    ensures
        forall|i: int| 0 <= i < notes.len() ==> (#[trigger] notes[i]).end <= last_end(notes),
        notes.len() > 0 ==> exists|i: int| 0 <= i < notes.len() && notes[i].end == last_end(notes),
        notes.len() == 0 ==> last_end(notes) == 0,
    decreases notes.len(),
{
    if notes.len() > 0 {
        let rest = notes.drop_last();
        lemma_last_end(rest);
        assert forall|i: int| 0 <= i < notes.len() implies (#[trigger] notes[i]).end <= last_end(
            notes,
        ) by {
            if i < rest.len() {
                assert(rest[i] == notes[i]);
            }
        }
        if notes.last().end > last_end(rest) || rest.len() == 0 {
            assert(notes[notes.len() - 1].end == last_end(notes));
        } else {
            let i = choose|i: int| 0 <= i < rest.len() && rest[i].end == last_end(rest);
            assert(notes[i] == rest[i]);
        }
    }
}

/// A track: the notes of one channel.
pub struct MidiTrack {
    /// The channel that the notes are sent to.
    pub channel: u8,
    /// The gain of the track, a fraction of `MAX_VOLUME`.
    pub gain: u8,
    /// The notes, in no particular order.
    pub notes: Vec<Note>,
    /// A muted track is not played.
    pub mute: bool,
    /// While any track is soloed, only soloed tracks are played.
    pub solo: bool,
}

impl MidiTrack {
    /// A track without notes for `channel`, at full gain.
    pub fn new(channel: u8) -> (track: MidiTrack)
        ensures
            track.channel == channel,
            track.gain == MAX_VOLUME,
            track.notes@ == Seq::<Note>::empty(),
            !track.mute,
            !track.solo,
    {
        MidiTrack { channel, gain: MAX_VOLUME, notes: Vec::new(), mute: false, solo: false }
    }

    /// The notes that start at `start` or later, as they sound at the gain of
    /// the track, in the order of the track.
    pub fn get_playback_notes(&self, start: u64) -> (notes: Vec<Note>)
        ensures
            notes@ == self.notes@.filter(starts_from(start)).map_values(scaling(self.gain)),
    {
        let mut notes: Vec<Note> = Vec::new();
        let n: usize = self.notes.len();
        let mut i: usize = 0;
        proof {
            assert(self.notes@.subrange(0, 0) =~= Seq::<Note>::empty());
            lemma_filter_of_empty::<Note>(starts_from(start));
            assert(notes@ =~= Seq::<Note>::empty().map_values(scaling(self.gain)));
        }
        while i < n
            invariant
                n == self.notes.len(),
                i <= n,
                notes@ == self.notes@.subrange(0, i as int).filter(starts_from(start)).map_values(
                    scaling(self.gain),
                ),
            decreases n - i,
        {
            let note = self.notes[i];
            proof {
                let prefix = self.notes@.subrange(0, i as int);
                assert(self.notes@.subrange(0, i + 1) =~= prefix.push(note));
                lemma_filter_push(prefix, note, starts_from(start));
                let kept = prefix.filter(starts_from(start));
                assert(kept.push(note).map_values(scaling(self.gain)) =~= kept.map_values(
                    scaling(self.gain),
                ).push(scaled_note(note, self.gain)));
            }
            if note.start >= start {
                notes.push(
                    Note {
                        note: note.note,
                        velocity: scale_velocity(note.velocity, self.gain),
                        start: note.start,
                        end: note.end,
                    },
                );
            }
            i += 1;
        }
        proof {
            assert(self.notes@.subrange(0, n as int) =~= self.notes@);
        }
        notes
    }

    /// The pulse at which the last note of the track ends: zero for a track
    /// without notes.
    pub fn get_end(&self) -> (end: u64)
        ensures
            end == last_end(self.notes@),
    {
        let mut end: u64 = 0;
        let n: usize = self.notes.len();
        let mut i: usize = 0;
        proof {
            assert(self.notes@.subrange(0, 0) =~= Seq::<Note>::empty());
        }
        while i < n
            invariant
                n == self.notes.len(),
                i <= n,
                end == last_end(self.notes@.subrange(0, i as int)),
            decreases n - i,
        {
            proof {
                assert(self.notes@.subrange(0, i + 1).drop_last() =~= self.notes@.subrange(
                    0,
                    i as int,
                ));
            }
            if self.notes[i].end > end {
                end = self.notes[i].end;
            }
            i += 1;
        }
        proof {
            assert(self.notes@.subrange(0, n as int) =~= self.notes@);
        }
        end
    }
}

/// All notes of `track` as they sound at its gain, in ascending order of
/// their start; notes that start together keep the order of the track.
pub fn get_playback_notes(track: &MidiTrack) -> (notes: Vec<Note>)
    ensures
        notes@ == sort_by_time(track.notes@.map_values(scaling(track.gain))),
        is_stable_sort_of(notes@, track.notes@.map_values(scaling(track.gain))),
{
    let mut notes: Vec<Note> = Vec::new();
    let n: usize = track.notes.len();
    let mut i: usize = 0;
    while i < n
        invariant
            n == track.notes.len(),
            i <= n,
            notes@ == track.notes@.subrange(0, i as int).map_values(scaling(track.gain)),
        decreases n - i,
    {
        let note = track.notes[i];
        notes.push(
            Note {
                note: note.note,
                velocity: scale_velocity(note.velocity, track.gain),
                start: note.start,
                end: note.end,
            },
        );
        proof {
            assert(notes@ =~= track.notes@.subrange(0, i + 1).map_values(scaling(track.gain)));
        }
        i += 1;
    }
    proof {
        assert(track.notes@.subrange(0, n as int) =~= track.notes@);
    }
    stable_sort(&mut notes);
    notes
}

/// Whether a track of `tracks` is soloed.
pub open spec fn any_solo(tracks: Seq<MidiTrack>) -> bool {
    exists|i: int| 0 <= i < tracks.len() && (#[trigger] tracks[i]).solo
}

/// Holds of the tracks that are played: the soloed ones while any track is
/// soloed, else the ones that are not muted.
pub open spec fn playable(solo: bool) -> spec_fn(MidiTrack) -> bool {
    |t: MidiTrack|
        if solo {
            t.solo
        } else {
            !t.mute
        }
}

/// The tracks that `tracks` refers to.
pub open spec fn tracks_of(tracks: Seq<&MidiTrack>) -> Seq<MidiTrack> {
    tracks.map_values(|t: &MidiTrack| *t)
}

/// The music: its tracks, and the track that is selected.
pub struct Music {
    /// The tracks.
    pub midi_tracks: Vec<MidiTrack>,
    /// The position of the selected track, if one is selected.
    pub selected: Option<usize>,
}

impl Music {
    /// Music without tracks.
    pub fn new() -> (music: Music)
        ensures
            music.midi_tracks@ == Seq::<MidiTrack>::empty(),
            music.selected.is_none(),
    {
        Music { midi_tracks: Vec::new(), selected: None }
    }

    /// The selected track: none where nothing is selected or the selection
    /// points at no track.
    pub open spec fn spec_selected_track(&self) -> Option<MidiTrack> {
        match self.selected {
            Some(i) if i < self.midi_tracks@.len() => Some(self.midi_tracks@[i as int]),
            _ => None,
        }
    }

    /// The selected track: none where nothing is selected or the selection
    /// points at no track.
    pub fn get_selected_track(&self) -> (track: Option<&MidiTrack>)
        ensures
            match track {
                Some(t) => self.spec_selected_track() == Some(*t),
                None => self.spec_selected_track().is_none(),
            },
    {
        match self.selected {
            Some(i) => {
                if i < self.midi_tracks.len() {
                    Some(&self.midi_tracks[i])
                } else {
                    None
                }
            },
            None => None,
        }
    }

    /// Whether any track is soloed.
    pub fn has_solo(&self) -> (solo: bool)
        ensures
            solo == any_solo(self.midi_tracks@),
    {
        let n: usize = self.midi_tracks.len();
        let mut i: usize = 0;
        while i < n
            invariant
                n == self.midi_tracks.len(),
                i <= n,
                forall|k: int| 0 <= k < i ==> !(#[trigger] self.midi_tracks@[k]).solo,
            decreases n - i,
        {
            if self.midi_tracks[i].solo {
                return true;
            }
            i += 1;
        }
        false
    }

    /// The tracks that are played, in their order: the soloed tracks while any
    /// track is soloed, else the tracks that are not muted.
    pub fn get_playable_tracks(&self) -> (tracks: Vec<&MidiTrack>)
        ensures
            tracks_of(tracks@) == self.midi_tracks@.filter(playable(any_solo(self.midi_tracks@))),
    {
        let solo = self.has_solo();
        let mut tracks: Vec<&MidiTrack> = Vec::new();
        let n: usize = self.midi_tracks.len();
        let mut i: usize = 0;
        proof {
            assert(self.midi_tracks@.subrange(0, 0) =~= Seq::<MidiTrack>::empty());
            lemma_filter_of_empty::<MidiTrack>(playable(solo));
            assert(tracks_of(tracks@) =~= Seq::<MidiTrack>::empty());
        }
        while i < n
            invariant
                n == self.midi_tracks.len(),
                i <= n,
                tracks_of(tracks@) == self.midi_tracks@.subrange(0, i as int).filter(playable(solo)),
            decreases n - i,
        {
            let track = &self.midi_tracks[i];
            let ghost before = tracks@;
            proof {
                let prefix = self.midi_tracks@.subrange(0, i as int);
                assert(self.midi_tracks@.subrange(0, i + 1) =~= prefix.push(*track));
                lemma_filter_push(prefix, *track, playable(solo));
                assert(tracks_of(before.push(track)) =~= tracks_of(before).push(*track));
            }
            let plays = if solo {
                track.solo
            } else {
                !track.mute
            };
            if plays {
                tracks.push(track);
            }
            i += 1;
        }
        proof {
            assert(self.midi_tracks@.subrange(0, n as int) =~= self.midi_tracks@);
        }
        tracks
    }
}

impl Default for Music {
    /// Music without tracks.
    fn default() -> (music: Self)
        ensures
            music.midi_tracks@ == Seq::<MidiTrack>::empty(),
            music.selected.is_none(),
    {
        Music::new()
    }
}

/// The tracks of `music` that are played, in their order.
pub fn get_playable_tracks(music: &Music) -> (tracks: Vec<&MidiTrack>)
    ensures
        tracks_of(tracks@) == music.midi_tracks@.filter(playable(any_solo(music.midi_tracks@))),
{
    music.get_playable_tracks()
}

} // verus!

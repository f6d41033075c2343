use crate::midi_event::MidiEvent;
use crate::midi_event_queue::{MidiEventQueue, TimedEvent};
use crate::music::{
    last_end, lemma_last_end, scale_velocity, scaled_note, scaling, spec_scale_velocity, starts_from,
    MidiTrack, Note,
};
use crate::time::{lemma_ppq_to_samples_monotonic, spec_ppq_to_samples, Time};
use vstd::prelude::*;

verus! {

/// A key that was struck: a status byte, the key and the velocity.
pub type Struck = [u8; 3];

/// The event of a key struck on a track of `channel` at gain `gain`.
pub open spec fn note_on_of(channel: u8, gain: u8) -> spec_fn(Struck) -> MidiEvent {
    |struck: Struck|
        MidiEvent::NoteOn { channel, key: struck[1], vel: spec_scale_velocity(struck[2], gain) }
}

/// The event of a key released on a track of `channel`.
pub open spec fn note_off_of(channel: u8) -> spec_fn(u8) -> MidiEvent {
    |key: u8| MidiEvent::NoteOff { channel, key }
}

/// The events of the keys struck on a track of `channel` at gain `gain`: for
/// each a note-on, its velocity scaled by the gain.
pub fn note_on_events(channel: u8, gain: u8, note_ons: &[Struck]) -> (events: Vec<MidiEvent>)
    ensures
        events@ == note_ons@.map_values(note_on_of(channel, gain)),
{
    let mut events: Vec<MidiEvent> = Vec::new();
    let n: usize = note_ons.len();
    let mut i: usize = 0;
    while i < n
        invariant
            n == note_ons@.len(),
            i <= n,
            events@ == note_ons@.subrange(0, i as int).map_values(note_on_of(channel, gain)),
        decreases n - i,
    {
        let struck = &note_ons[i];
        events.push(
            MidiEvent::NoteOn { channel, key: struck[1], vel: scale_velocity(struck[2], gain) },
        );
        proof {
            assert(events@ =~= note_ons@.subrange(0, i + 1).map_values(note_on_of(channel, gain)));
        }
        i += 1;
    }
    proof {
        assert(note_ons@.subrange(0, n as int) =~= note_ons@);
    }
    events
}

/// The events of the keys released on a track of `channel`: for each a
/// note-off.
pub fn note_off_events(channel: u8, note_offs: &[u8]) -> (events: Vec<MidiEvent>)
    ensures
        events@ == note_offs@.map_values(note_off_of(channel)),
{
    let mut events: Vec<MidiEvent> = Vec::new();
    let n: usize = note_offs.len();
    let mut i: usize = 0;
    while i < n
        invariant
            n == note_offs@.len(),
            i <= n,
            events@ == note_offs@.subrange(0, i as int).map_values(note_off_of(channel)),
        decreases n - i,
    {
        events.push(MidiEvent::NoteOff { channel, key: note_offs[i] });
        proof {
            assert(events@ =~= note_offs@.subrange(0, i + 1).map_values(note_off_of(channel)));
        }
        i += 1;
    }
    proof {
        assert(note_offs@.subrange(0, n as int) =~= note_offs@);
    }
    events
}

/// The events that silence the tracks of `tracks`: for each track, in their
/// order, all notes off and all sound off on its channel.
pub open spec fn silencing(tracks: Seq<MidiTrack>) -> Seq<MidiEvent>
    decreases tracks.len(),
{
    if tracks.len() == 0 {
        Seq::<MidiEvent>::empty()
    } else {
        silencing(tracks.drop_last()).push(
            MidiEvent::AllNotesOff { channel: tracks.last().channel },
        ).push(MidiEvent::AllSoundOff { channel: tracks.last().channel })
    }
}

/// Every track is silenced, whatever the others are: the events that silence
/// the tracks hold, for the track at each place `i`, all notes off and then
/// all sound off on its channel, at the places `2 * i` and `2 * i + 1`.
pub proof fn law_every_track_is_silenced(tracks: Seq<MidiTrack>, i: int)
    requires
        0 <= i < tracks.len(),
    ensures
        silencing(tracks).len() == 2 * tracks.len(),
        silencing(tracks)[2 * i] == (MidiEvent::AllNotesOff { channel: tracks[i].channel }),
        silencing(tracks)[2 * i + 1] == (MidiEvent::AllSoundOff { channel: tracks[i].channel }),
    decreases tracks.len(),
{
    lemma_silencing_len(tracks);
    lemma_silencing_len(tracks.drop_last());
    if i < tracks.len() - 1 {
        law_every_track_is_silenced(tracks.drop_last(), i);
    }
}

/// Each track gives two events that silence it.
proof fn lemma_silencing_len(tracks: Seq<MidiTrack>)
    ensures
        silencing(tracks).len() == 2 * tracks.len(),
    decreases tracks.len(),
{
    if tracks.len() > 0 {
        lemma_silencing_len(tracks.drop_last());
    }
}

/// The events that silence the tracks of `tracks`.
pub fn silencing_events(tracks: &Vec<MidiTrack>) -> (events: Vec<MidiEvent>)
    ensures
        events@ == silencing(tracks@),
{
    let mut events: Vec<MidiEvent> = Vec::new();
    let n: usize = tracks.len();
    let mut i: usize = 0;
    proof {
        assert(tracks@.subrange(0, 0) =~= Seq::<MidiTrack>::empty());
    }
    while i < n
        invariant
            n == tracks.len(),
            i <= n,
            events@ == silencing(tracks@.subrange(0, i as int)),
        decreases n - i,
    {
        proof {
            assert(tracks@.subrange(0, i + 1).drop_last() =~= tracks@.subrange(0, i as int));
        }
        events.push(MidiEvent::AllNotesOff { channel: tracks[i].channel });
        events.push(MidiEvent::AllSoundOff { channel: tracks[i].channel });
        i += 1;
    }
    proof {
        assert(tracks@.subrange(0, n as int) =~= tracks@);
    }
    events
}

/// The events of `notes` on `channel`: for each note, in their order, a
/// note-on at the sample of its start and a note-off at the sample of its end.
pub open spec fn note_events(notes: Seq<Note>, channel: u8, bpm: u64, framerate: u32) -> Seq<TimedEvent>
    decreases notes.len(),
{
    if notes.len() == 0 {
        Seq::<TimedEvent>::empty()
    } else {
        let note = notes.last();
        note_events(notes.drop_last(), channel, bpm, framerate).push(
            TimedEvent {
                sample_time: spec_ppq_to_samples(note.start, bpm, framerate),
                event: MidiEvent::NoteOn { channel, key: note.note, vel: note.velocity },
            },
        ).push(
            TimedEvent {
                sample_time: spec_ppq_to_samples(note.end, bpm, framerate),
                event: MidiEvent::NoteOff { channel, key: note.note },
            },
        )
    }
}

/// The notes of `track` that are played from the pulse `start` on, as they
/// sound at the gain of the track.
pub open spec fn playback_notes(track: MidiTrack, start: u64) -> Seq<Note> {
    track.notes@.filter(starts_from(start)).map_values(scaling(track.gain))
}

/// The events of `track` from the pulse `start` on.
pub open spec fn track_events(track: MidiTrack, start: u64, bpm: u64, framerate: u32) -> Seq<
    TimedEvent,
> {
    note_events(playback_notes(track, start), track.channel, bpm, framerate)
}

/// The events of the tracks of `tracks` from the pulse `start` on, track by
/// track.
pub open spec fn tracks_events(tracks: Seq<MidiTrack>, start: u64, bpm: u64, framerate: u32) -> Seq<
    TimedEvent,
>
    decreases tracks.len(),
{
    if tracks.len() == 0 {
        Seq::<TimedEvent>::empty()
    } else {
        tracks_events(tracks.drop_last(), start, bpm, framerate) + track_events(
            tracks.last(),
            start,
            bpm,
            framerate,
        )
    }
}

/// The greater of two times.
pub open spec fn later(a: u64, b: u64) -> u64 {
    if a > b {
        a
    } else {
        b
    }
}

/// The sample at which the last note of `track` that is played from `start`
/// on ends: zero where no note is played.
pub open spec fn track_end(track: MidiTrack, start: u64, bpm: u64, framerate: u32) -> u64 {
    spec_ppq_to_samples(last_end(playback_notes(track, start)), bpm, framerate)
}

/// The sample at which the last note of `tracks` that is played from `start`
/// on ends.
pub open spec fn tracks_end(tracks: Seq<MidiTrack>, start: u64, bpm: u64, framerate: u32) -> u64
    decreases tracks.len(),
{
    if tracks.len() == 0 {
        0
    } else {
        later(
            tracks_end(tracks.drop_last(), start, bpm, framerate),
            track_end(tracks.last(), start, bpm, framerate),
        )
    }
}

/// Where no note ends before it starts, no event of the notes is due after
/// the sample at which the last note ends; and each event is for `channel`.
pub proof fn lemma_note_events_end(notes: Seq<Note>, channel: u8, bpm: u64, framerate: u32, i: int)
    requires
        bpm > 0,
        forall|k: int| 0 <= k < notes.len() ==> (#[trigger] notes[k]).start <= notes[k].end,
        0 <= i < note_events(notes, channel, bpm, framerate).len(),
    ensures
        note_events(notes, channel, bpm, framerate)[i].sample_time <= spec_ppq_to_samples(
            last_end(notes),
            bpm,
            framerate,
        ),
        note_events(notes, channel, bpm, framerate)[i].event.spec_channel() == channel,
    decreases notes.len(),
{
    lemma_note_events_len(notes, channel, bpm, framerate);
    if notes.len() > 0 {
        let rest = notes.drop_last();
        let note = notes.last();
        lemma_note_events_len(rest, channel, bpm, framerate);
        lemma_last_end(notes);
        assert(notes[notes.len() - 1].end <= last_end(notes));
        if i < 2 * rest.len() {
            assert forall|k: int| 0 <= k < rest.len() implies (#[trigger] rest[k]).start
                <= rest[k].end by {
                assert(rest[k] == notes[k]);
            }
            lemma_note_events_end(rest, channel, bpm, framerate, i);
            lemma_ppq_to_samples_monotonic(last_end(rest), last_end(notes), bpm, framerate);
        } else if i == 2 * rest.len() {
            lemma_ppq_to_samples_monotonic(note.start, last_end(notes), bpm, framerate);
        } else {
            lemma_ppq_to_samples_monotonic(note.end, last_end(notes), bpm, framerate);
        }
    }
}

/// Where no note starts or ends before the pulse `start`, no event of the
/// notes is due before the sample of `start`.
pub proof fn lemma_note_events_start(
    notes: Seq<Note>,
    channel: u8,
    bpm: u64,
    framerate: u32,
    start: u64,
    i: int,
)
    requires
        bpm > 0,
        forall|k: int|
            0 <= k < notes.len() ==> start <= (#[trigger] notes[k]).start && start <= notes[k].end,
        0 <= i < note_events(notes, channel, bpm, framerate).len(),
    ensures
        spec_ppq_to_samples(start, bpm, framerate) <= note_events(
            notes,
            channel,
            bpm,
            framerate,
        )[i].sample_time,
    decreases notes.len(),
{
    lemma_note_events_len(notes, channel, bpm, framerate);
    if notes.len() > 0 {
        let rest = notes.drop_last();
        let note = notes.last();
        lemma_note_events_len(rest, channel, bpm, framerate);
        assert(start <= notes[notes.len() - 1].start);
        if i < 2 * rest.len() {
            assert forall|k: int| 0 <= k < rest.len() implies start <= (#[trigger] rest[k]).start
                && start <= rest[k].end by {
                assert(rest[k] == notes[k]);
            }
            lemma_note_events_start(rest, channel, bpm, framerate, start, i);
        } else if i == 2 * rest.len() {
            lemma_ppq_to_samples_monotonic(start, note.start, bpm, framerate);
        } else {
            lemma_ppq_to_samples_monotonic(start, note.end, bpm, framerate);
        }
    }
}

/// No note of `notes` ends before it starts.
pub open spec fn notes_are_whole(notes: Seq<Note>) -> bool {
    forall|k: int| 0 <= k < notes.len() ==> (#[trigger] notes[k]).start <= notes[k].end
}

/// No note of a track of `tracks` ends before it starts.
pub open spec fn tracks_are_whole(tracks: Seq<MidiTrack>) -> bool {
    forall|k: int| 0 <= k < tracks.len() ==> notes_are_whole((#[trigger] tracks[k]).notes@)
}

/// The notes that are played from `start` on start there or later, and end
/// no earlier than they start where the notes of the track do.
pub proof fn lemma_playback_notes(track: MidiTrack, start: u64)
    requires
        notes_are_whole(track.notes@),
    ensures
        notes_are_whole(playback_notes(track, start)),
        forall|k: int|
            0 <= k < playback_notes(track, start).len() ==> start <= (#[trigger] playback_notes(
                track,
                start,
            )[k]).start && start <= playback_notes(track, start)[k].end,
{
    let kept = track.notes@.filter(starts_from(start));
    let played = playback_notes(track, start);
    assert forall|k: int| 0 <= k < played.len() implies (#[trigger] played[k]).start
        <= played[k].end && start <= played[k].start by {
        track.notes@.lemma_filter_pred(starts_from(start), k);
        track.notes@.lemma_filter_contains_rev(starts_from(start), kept[k]);
        let j = choose|j: int| 0 <= j < track.notes@.len() && track.notes@[j] == kept[k];
        assert(track.notes@[j].start <= track.notes@[j].end);
        assert(played[k] == scaled_note(kept[k], track.gain));
    }
}

/// Where no note ends before it starts, no event of the tracks from `start`
/// on is due before the sample of `start` or after the sample at which the
/// last note ends.
pub proof fn lemma_tracks_events_span(
    tracks: Seq<MidiTrack>,
    start: u64,
    bpm: u64,
    framerate: u32,
    i: int,
)
    requires
        bpm > 0,
        tracks_are_whole(tracks),
        0 <= i < tracks_events(tracks, start, bpm, framerate).len(),
    ensures
        spec_ppq_to_samples(start, bpm, framerate) <= tracks_events(
            tracks,
            start,
            bpm,
            framerate,
        )[i].sample_time,
        tracks_events(tracks, start, bpm, framerate)[i].sample_time <= tracks_end(
            tracks,
            start,
            bpm,
            framerate,
        ),
    decreases tracks.len(),
{
    if tracks.len() > 0 {
        let rest = tracks.drop_last();
        let track = tracks.last();
        let before = tracks_events(rest, start, bpm, framerate);
        assert(tracks_are_whole(rest)) by {
            assert forall|k: int| 0 <= k < rest.len() implies notes_are_whole(
                (#[trigger] rest[k]).notes@,
            ) by {
                assert(rest[k] == tracks[k]);
            }
        }
        assert(notes_are_whole(tracks[tracks.len() - 1].notes@));
        if i < before.len() {
            lemma_tracks_events_span(rest, start, bpm, framerate, i);
        } else {
            lemma_playback_notes(track, start);
            lemma_note_events_start(
                playback_notes(track, start),
                track.channel,
                bpm,
                framerate,
                start,
                i - before.len(),
            );
            lemma_note_events_end(
                playback_notes(track, start),
                track.channel,
                bpm,
                framerate,
                i - before.len(),
            );
        }
    }
}

/// Each note gives two events.
pub proof fn lemma_note_events_len(notes: Seq<Note>, channel: u8, bpm: u64, framerate: u32)
    ensures
        note_events(notes, channel, bpm, framerate).len() == 2 * notes.len(),
    decreases notes.len(),
{
    if notes.len() > 0 {
        lemma_note_events_len(notes.drop_last(), channel, bpm, framerate);
    }
}

/// Appends to `events` the events of the notes of `track` that are played
/// from the pulse `start` on, each note as it sounds at the gain of the track,
/// at `framerate` samples per second, and moves `t1` to the sample at which
/// the last of them ends, if that is later.
pub fn enqueue_track_events(
    track: &MidiTrack,
    time: &Time,
    framerate: u32,
    start: u64,
    events: &mut MidiEventQueue,
    t1: &mut u64,
)
    ensures
        final(events)@ == old(events)@ + track_events(*track, start, time.spec_bpm(), framerate),
        *final(t1) == later(*old(t1), track_end(*track, start, time.spec_bpm(), framerate)),
{
    let notes = track.get_playback_notes(start);
    let bpm = time.bpm();
    let n: usize = notes.len();
    let mut i: usize = 0;
    let ghost before = events@;
    proof {
        assert(notes@.subrange(0, 0) =~= Seq::<Note>::empty());
        assert(events@ =~= before + note_events(
            notes@.subrange(0, 0),
            track.channel,
            bpm,
            framerate,
        ));
        assert(spec_ppq_to_samples(0, bpm, framerate) == 0) by {
            assert(0int * 60 * (framerate as int) == 0);
            assert(0int / (bpm as int * 192) == 0) by (nonlinear_arith)
                requires
                    bpm > 0,
            ;
        }
    }
    while i < n
        invariant
            n == notes.len(),
            i <= n,
            bpm == time.spec_bpm(),
            bpm > 0,
            events@ == before + note_events(
                notes@.subrange(0, i as int),
                track.channel,
                bpm,
                framerate,
            ),
            *t1 == later(
                *old(t1),
                spec_ppq_to_samples(last_end(notes@.subrange(0, i as int)), bpm, framerate),
            ),
        decreases n - i,
    {
        let note = notes[i];
        let ghost prefix = notes@.subrange(0, i as int);
        proof {
            assert(notes@.subrange(0, i + 1).drop_last() =~= prefix);
            if note.end > last_end(prefix) {
                lemma_ppq_to_samples_monotonic(last_end(prefix), note.end, bpm, framerate);
            } else {
                lemma_ppq_to_samples_monotonic(note.end, last_end(prefix), bpm, framerate);
            }
        }
        events.enqueue(
            time.ppq_to_samples(note.start, framerate),
            MidiEvent::NoteOn { channel: track.channel, key: note.note, vel: note.velocity },
        );
        let end = time.ppq_to_samples(note.end, framerate);
        if *t1 < end {
            *t1 = end;
        }
        events.enqueue(end, MidiEvent::NoteOff { channel: track.channel, key: note.note });
        proof {
            assert(events@ =~= before + note_events(
                notes@.subrange(0, i + 1),
                track.channel,
                bpm,
                framerate,
            ));
        }
        i += 1;
    }
    proof {
        assert(notes@.subrange(0, n as int) =~= notes@);
    }
}

} // verus!

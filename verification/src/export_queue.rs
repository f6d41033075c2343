use crate::export::{file_name, spec_file_name, spec_file_suffix, ExportState, MultiFileSuffix};
use crate::export_session::{get_export_file_suffix, preset_name_of};
use crate::exporter::Exporter;
use crate::music::{any_solo, get_playback_notes, playable, scaling, tracks_of, MidiTrack, Note};
use crate::schedule::later;
use crate::state::State;
use crate::synth_state::{ProgramView, SynthState};
use crate::time::{spec_ppq_to_samples, Time};
use crate::timed::sort_by_time;
use vstd::prelude::*;

verus! {

/// A step of an export that is played rather than rendered.
pub enum QueuedCommand {
    /// Set the frame rate of the synthesizer.
    SetFramerate { framerate: u32 },
    /// Start to play at the sample `time`.
    PlayMusic { time: u64 },
    /// Play a note from the sample `start` to the sample `end`.
    NoteOnAt { channel: u8, key: u8, velocity: u8, start: u64, end: u64 },
    /// Silence every channel at once.
    SoundOff,
    /// Write what is played to the file called `file_name`.
    Export { file_name: String, state: ExportState },
    /// Stop the music.
    StopMusic,
    /// Stop the music at the sample `time`.
    StopMusicAt { time: u64 },
    /// Bring the files of these names to one length.
    AppendSilences { file_names: Vec<String> },
}

/// A `QueuedCommand` as plain values.
pub enum QueuedCommandView {
    SetFramerate { framerate: u32 },
    PlayMusic { time: u64 },
    NoteOnAt { channel: u8, key: u8, velocity: u8, start: u64, end: u64 },
    SoundOff,
    Export { file_name: Seq<char>, state: ExportState },
    StopMusic,
    StopMusicAt { time: u64 },
    AppendSilences { file_names: Seq<Seq<char>> },
}

/// The strings of `names` as plain values.
pub open spec fn name_views(names: Seq<String>) -> Seq<Seq<char>> {
    names.map_values(|n: String| n@)
}

impl View for QueuedCommand {
    type V = QueuedCommandView;

    open spec fn view(&self) -> QueuedCommandView {
        match self {
            QueuedCommand::SetFramerate { framerate } => QueuedCommandView::SetFramerate {
                framerate: *framerate,
            },
            QueuedCommand::PlayMusic { time } => QueuedCommandView::PlayMusic { time: *time },
            QueuedCommand::NoteOnAt { channel, key, velocity, start, end } => QueuedCommandView::NoteOnAt {
                channel: *channel,
                key: *key,
                velocity: *velocity,
                start: *start,
                end: *end,
            },
            QueuedCommand::SoundOff => QueuedCommandView::SoundOff,
            QueuedCommand::Export { file_name, state } => QueuedCommandView::Export {
                file_name: file_name@,
                state: *state,
            },
            QueuedCommand::StopMusic => QueuedCommandView::StopMusic,
            QueuedCommand::StopMusicAt { time } => QueuedCommandView::StopMusicAt { time: *time },
            QueuedCommand::AppendSilences { file_names } => QueuedCommandView::AppendSilences {
                file_names: name_views(file_names@),
            },
        }
    }
}

/// The commands of `commands` as plain values.
pub open spec fn command_views(commands: Seq<QueuedCommand>) -> Seq<QueuedCommandView> {
    commands.map_values(|c: QueuedCommand| c@)
}

/// A batch of commands, and the phase that the export is in once they are
/// sent.
pub struct QueuedExport {
    pub commands: Vec<QueuedCommand>,
    pub state: Option<ExportState>,
}

/// A `QueuedExport` as plain values.
pub struct QueuedExportView {
    pub commands: Seq<QueuedCommandView>,
    pub state: Option<ExportState>,
}

impl View for QueuedExport {
    type V = QueuedExportView;

    open spec fn view(&self) -> QueuedExportView {
        QueuedExportView { commands: command_views(self.commands@), state: self.state }
    }
}

/// The batches of `batches` as plain values.
pub open spec fn batch_views(batches: Seq<QueuedExport>) -> Seq<QueuedExportView> {
    batches.map_values(|b: QueuedExport| b@)
}

/// What the notes of a track add to a batch.
pub struct Played {
    /// The commands so far.
    pub commands: Seq<QueuedCommandView>,
    /// The sample at which the last note so far ends.
    pub end: u64,
}

/// `played` and the notes of `notes` on `channel` that start at the sample
/// `t0` or later: a command for each, in their order.
pub open spec fn play_notes(
    played: Played,
    notes: Seq<Note>,
    channel: u8,
    bpm: u64,
    framerate: u32,
    t0: u64,
) -> Played
    decreases notes.len(),
{
    if notes.len() == 0 {
        played
    } else {
        let before = play_notes(played, notes.drop_last(), channel, bpm, framerate, t0);
        let note = notes.last();
        let start = spec_ppq_to_samples(note.start, bpm, framerate);
        let end = spec_ppq_to_samples(note.end, bpm, framerate);
        if start < t0 {
            before
        } else {
            Played {
                commands: before.commands.push(
                    QueuedCommandView::NoteOnAt {
                        channel,
                        key: note.note,
                        velocity: note.velocity,
                        start,
                        end,
                    },
                ),
                end: later(before.end, end),
            }
        }
    }
}

/// `played` and the notes of `track`, as they sound at its gain and in
/// ascending order of their start.
pub open spec fn play_track(played: Played, track: MidiTrack, bpm: u64, framerate: u32, t0: u64) -> Played {
    play_notes(
        played,
        sort_by_time(track.notes@.map_values(scaling(track.gain))),
        track.channel,
        bpm,
        framerate,
        t0,
    )
}

/// `played` and the notes of the tracks of `tracks`, track by track.
pub open spec fn play_tracks(
    played: Played,
    tracks: Seq<MidiTrack>,
    bpm: u64,
    framerate: u32,
    t0: u64,
) -> Played
    decreases tracks.len(),
{
    if tracks.len() == 0 {
        played
    } else {
        play_track(
            play_tracks(played, tracks.drop_last(), bpm, framerate, t0),
            tracks.last(),
            bpm,
            framerate,
            t0,
        )
    }
}

/// The commands that play `tracks` from the pulse `start_time` on: the start
/// of the music at the sample of that pulse, the frame rate, the notes, and
/// the stop of the music at the sample at which the last note ends.
pub open spec fn spec_combined(tracks: Seq<MidiTrack>, bpm: u64, framerate: u32, start_time: u64) -> (
    Seq<QueuedCommandView>,
    u64,
) {
    let t0 = spec_ppq_to_samples(start_time, bpm, framerate);
    let played = play_tracks(
        Played {
            commands: seq![
                QueuedCommandView::PlayMusic { time: t0 },
                QueuedCommandView::SetFramerate { framerate },
            ],
            end: t0,
        },
        tracks,
        bpm,
        framerate,
        t0,
    );
    (played.commands.push(QueuedCommandView::StopMusicAt { time: played.end }), played.end)
}

/// Appends to `commands` a command for each note of `track` that starts at
/// the sample `t0` or later, and moves `t1` to the end of the last of them, if
/// that is later.
fn push_track_notes(
    commands: &mut Vec<QueuedCommand>,
    t1: &mut u64,
    track: &MidiTrack,
    time: &Time,
    framerate: u32,
    t0: u64,
)
    ensures
        (Played { commands: command_views(final(commands)@), end: *final(t1) }) == play_track(
            Played { commands: command_views(old(commands)@), end: *old(t1) },
            *track,
            time.spec_bpm(),
            framerate,
            t0,
        ),
{
    let notes = get_playback_notes(track);
    let ghost start = Played { commands: command_views(commands@), end: *t1 };
    let n: usize = notes.len();
    let mut i: usize = 0;
    proof {
        assert(notes@.subrange(0, 0) =~= Seq::<Note>::empty());
    }
    while i < n
        invariant
            n == notes.len(),
            i <= n,
            (Played { commands: command_views(commands@), end: *t1 }) == play_notes(
                start,
                notes@.subrange(0, i as int),
                track.channel,
                time.spec_bpm(),
                framerate,
                t0,
            ),
        decreases n - i,
    {
        let note = notes[i];
        proof {
            assert(notes@.subrange(0, i + 1).drop_last() =~= notes@.subrange(0, i as int));
        }
        let start_sample = time.ppq_to_samples(note.start, framerate);
        if start_sample >= t0 {
            let end_sample = time.ppq_to_samples(note.end, framerate);
            if end_sample > *t1 {
                *t1 = end_sample;
            }
            let ghost before = commands@;
            commands.push(
                QueuedCommand::NoteOnAt {
                    channel: track.channel,
                    key: note.note,
                    velocity: note.velocity,
                    start: start_sample,
                    end: end_sample,
                },
            );
            proof {
                assert(command_views(commands@) =~= command_views(before).push(
                    QueuedCommandView::NoteOnAt {
                        channel: track.channel,
                        key: note.note,
                        velocity: note.velocity,
                        start: start_sample,
                        end: end_sample,
                    },
                ));
            }
        }
        i += 1;
    }
    proof {
        assert(notes@.subrange(0, n as int) =~= notes@);
    }
}

/// The commands that play the tracks of `state` that are played, from the
/// pulse `start_time` on at `framerate` samples per second, and the sample at
/// which the last note ends.
pub fn combine_tracks_to_commands(state: &State, framerate: u32, start_time: u64) -> (combined: (
    Vec<QueuedCommand>,
    u64,
))
    ensures
        (command_views(combined.0@), combined.1) == spec_combined(
            state.music.midi_tracks@.filter(playable(any_solo(state.music.midi_tracks@))),
            state.time.spec_bpm(),
            framerate,
            start_time,
        ),
{
    let t0 = state.time.ppq_to_samples(start_time, framerate);
    let mut t1 = t0;
    let mut commands: Vec<QueuedCommand> = Vec::new();
    commands.push(QueuedCommand::PlayMusic { time: t0 });
    commands.push(QueuedCommand::SetFramerate { framerate });
    let tracks = state.music.get_playable_tracks();
    let ghost played = tracks_of(tracks@);
    let ghost start = Played {
        commands: seq![
            QueuedCommandView::PlayMusic { time: t0 },
            QueuedCommandView::SetFramerate { framerate },
        ],
        end: t0,
    };
    let n: usize = tracks.len();
    let mut i: usize = 0;
    proof {
        assert(command_views(commands@) =~= start.commands);
        assert(played.subrange(0, 0) =~= Seq::<MidiTrack>::empty());
    }
    while i < n
        invariant
            n == tracks.len(),
            i <= n,
            played == tracks_of(tracks@),
            (Played { commands: command_views(commands@), end: t1 }) == play_tracks(
                start,
                played.subrange(0, i as int),
                state.time.spec_bpm(),
                framerate,
                t0,
            ),
        decreases n - i,
    {
        proof {
            assert(played.subrange(0, i + 1).drop_last() =~= played.subrange(0, i as int));
            assert(played.subrange(0, i + 1).last() == *tracks@[i as int]);
        }
        push_track_notes(&mut commands, &mut t1, tracks[i], &state.time, framerate, t0);
        i += 1;
    }
    proof {
        assert(played.subrange(0, n as int) =~= played);
    }
    let ghost before = commands@;
    commands.push(QueuedCommand::StopMusicAt { time: t1 });
    proof {
        assert(command_views(commands@) =~= command_views(before).push(
            QueuedCommandView::StopMusicAt { time: t1 },
        ));
    }
    (commands, t1)
}

/// The name of the file of `track` in an export of one file for each track.
pub open spec fn track_file_name(
    base: Seq<char>,
    extension: Seq<char>,
    policy: MultiFileSuffix,
    programs: Map<u8, ProgramView>,
    track: MidiTrack,
) -> Seq<char> {
    spec_file_name(
        base,
        Some(spec_file_suffix(policy, track.channel, preset_name_of(programs, track.channel))),
        extension,
    )
}

/// The batch of one track: the frame rate, the start of the music at the
/// first sample, the notes of the track, silence, and the export to the file
/// of the track, which takes as many samples as there are up to the end of
/// the last note.
pub open spec fn track_batch(
    track: MidiTrack,
    bpm: u64,
    framerate: u32,
    file_name: Seq<char>,
) -> QueuedExportView {
    let t0 = spec_ppq_to_samples(0, bpm, framerate);
    let played = play_track(
        Played {
            commands: seq![
                QueuedCommandView::SetFramerate { framerate },
                QueuedCommandView::PlayMusic { time: t0 },
            ],
            end: t0,
        },
        track,
        bpm,
        framerate,
        t0,
    );
    let state = ExportState::WritingWav { total_samples: played.end, exported_samples: 0 };
    QueuedExportView {
        commands: played.commands.push(QueuedCommandView::SoundOff).push(
            QueuedCommandView::Export { file_name, state },
        ),
        state: Some(state),
    }
}

/// Makes each track its batch.
pub open spec fn batching(
    bpm: u64,
    framerate: u32,
    base: Seq<char>,
    extension: Seq<char>,
    policy: MultiFileSuffix,
    programs: Map<u8, ProgramView>,
) -> spec_fn(MidiTrack) -> QueuedExportView {
    |track: MidiTrack|
        track_batch(
            track,
            bpm,
            framerate,
            track_file_name(base, extension, policy, programs, track),
        )
}

/// Gives each track the name of its file.
pub open spec fn naming(
    base: Seq<char>,
    extension: Seq<char>,
    policy: MultiFileSuffix,
    programs: Map<u8, ProgramView>,
) -> spec_fn(MidiTrack) -> Seq<char> {
    |track: MidiTrack| track_file_name(base, extension, policy, programs, track)
}

/// The batch that ends an export of one file for each track: the stop of the
/// music, and the files that are brought to one length.
pub open spec fn last_batch(file_names: Seq<Seq<char>>) -> QueuedExportView {
    QueuedExportView {
        commands: seq![
            QueuedCommandView::StopMusic,
            QueuedCommandView::AppendSilences { file_names },
        ],
        state: None,
    }
}

/// The one batch of an export of all tracks to one file: silence, the export
/// to the file, which takes as many samples as there are up to the end of the
/// last note, and the commands that play the tracks from the first pulse.
pub open spec fn single_batch(
    tracks: Seq<MidiTrack>,
    bpm: u64,
    framerate: u32,
    file_name: Seq<char>,
) -> QueuedExportView {
    let combined = spec_combined(tracks, bpm, framerate, 0);
    let state = ExportState::WritingWav { total_samples: combined.1, exported_samples: 0 };
    QueuedExportView {
        commands: seq![
            QueuedCommandView::SoundOff,
            QueuedCommandView::Export { file_name, state },
        ] + combined.0,
        state: Some(state),
    }
}

/// The batches of an export that wait for their turn. A batch is handed out
/// only while no export is under way, so that the files are made one after
/// the other.
pub struct ExportQueue {
    batches: Vec<QueuedExport>,
}

impl View for ExportQueue {
    type V = Seq<QueuedExportView>;

    closed spec fn view(&self) -> Seq<QueuedExportView> {
        batch_views(self.batches@)
    }
}

impl ExportQueue {
    /// A queue without batches.
    pub fn new() -> (queue: ExportQueue)
        ensures
            queue@ == Seq::<QueuedExportView>::empty(),
    {
        let queue = ExportQueue { batches: Vec::new() };
        proof {
            assert(queue@ =~= Seq::<QueuedExportView>::empty());
        }
        queue
    }

    /// The number of batches that wait.
    pub fn len(&self) -> (n: usize)
        ensures
            n == self@.len(),
    {
        self.batches.len()
    }

    /// Replaces what waits by the batches of an export of one file for each
    /// track of `state` that is played: a batch for each track, in their
    /// order, and the batch that ends the export. The file of a track is
    /// called `base`, an underscore, the suffix of the track and `extension`.
    pub fn queue_multi_file_export(
        &mut self,
        base: &str,
        extension: &str,
        state: &State,
        synth_state: &SynthState,
        exporter: &Exporter,
    )
        ensures
            final(self)@ == state.music.midi_tracks@.filter(
                playable(any_solo(state.music.midi_tracks@)),
            ).map_values(
                batching(
                    state.time.spec_bpm(),
                    exporter.framerate,
                    base@,
                    extension@,
                    exporter.multi_file_suffix,
                    synth_state@.programs,
                ),
            ).push(
                last_batch(
                    state.music.midi_tracks@.filter(
                        playable(any_solo(state.music.midi_tracks@)),
                    ).map_values(
                        naming(base@, extension@, exporter.multi_file_suffix, synth_state@.programs),
                    ),
                ),
            ),
    {
        let framerate = exporter.framerate;
        let policy = exporter.multi_file_suffix;
        let mut batches: Vec<QueuedExport> = Vec::new();
        let mut file_names: Vec<String> = Vec::new();
        let t0 = state.time.ppq_to_samples(0, framerate);
        let tracks = state.music.get_playable_tracks();
        let ghost played = tracks_of(tracks@);
        let ghost bpm = state.time.spec_bpm();
        let ghost programs = synth_state@.programs;
        let n: usize = tracks.len();
        let mut i: usize = 0;
        proof {
            assert(batch_views(batches@) =~= played.subrange(0, 0).map_values(
                batching(bpm, framerate, base@, extension@, policy, programs),
            ));
            assert(name_views(file_names@) =~= played.subrange(0, 0).map_values(
                naming(base@, extension@, policy, programs),
            ));
        }
        while i < n
            invariant
                n == tracks.len(),
                i <= n,
                played == tracks_of(tracks@),
                bpm == state.time.spec_bpm(),
                programs == synth_state@.programs,
                t0 == spec_ppq_to_samples(0, bpm, framerate),
                batch_views(batches@) == played.subrange(0, i as int).map_values(
                    batching(bpm, framerate, base@, extension@, policy, programs),
                ),
                name_views(file_names@) == played.subrange(0, i as int).map_values(
                    naming(base@, extension@, policy, programs),
                ),
            decreases n - i,
        {
            let track = tracks[i];
            let mut t1 = t0;
            let mut commands: Vec<QueuedCommand> = Vec::new();
            commands.push(QueuedCommand::SetFramerate { framerate });
            commands.push(QueuedCommand::PlayMusic { time: t0 });
            proof {
                assert(command_views(commands@) =~= seq![
                    QueuedCommandView::SetFramerate { framerate },
                    QueuedCommandView::PlayMusic { time: t0 },
                ]);
            }
            push_track_notes(&mut commands, &mut t1, track, &state.time, framerate, t0);
            let suffix = Some(get_export_file_suffix(policy, synth_state, track));
            let name = file_name(base, &suffix, extension);
            let ghost name_view = name@;
            let export_state = ExportState::WritingWav { total_samples: t1, exported_samples: 0 };
            let ghost before = commands@;
            commands.push(QueuedCommand::SoundOff);
            commands.push(QueuedCommand::Export { file_name: name.clone(), state: export_state });
            proof {
                assert(command_views(commands@) =~= command_views(before).push(
                    QueuedCommandView::SoundOff,
                ).push(QueuedCommandView::Export { file_name: name_view, state: export_state }));
                assert(played[i as int] == *track);
            }
            let ghost names_before = file_names@;
            file_names.push(name);
            let batch = QueuedExport { commands, state: Some(export_state) };
            let ghost batch_view = batch@;
            let ghost batches_before = batches@;
            batches.push(batch);
            proof {
                assert(name_view == track_file_name(base@, extension@, policy, programs, *track));
                assert(batch_view == track_batch(*track, bpm, framerate, name_view));
                assert(batch_views(batches@) =~= batch_views(batches_before).push(batch_view));
                assert(name_views(file_names@) =~= name_views(names_before).push(name_view));
                assert(batch_views(batches@) =~= played.subrange(0, i + 1).map_values(
                    batching(bpm, framerate, base@, extension@, policy, programs),
                ));
                assert(name_views(file_names@) =~= played.subrange(0, i + 1).map_values(
                    naming(base@, extension@, policy, programs),
                ));
            }
            i += 1;
        }
        proof {
            assert(played.subrange(0, n as int) =~= played);
        }
        let ghost names = name_views(file_names@);
        let mut commands: Vec<QueuedCommand> = Vec::new();
        commands.push(QueuedCommand::StopMusic);
        commands.push(QueuedCommand::AppendSilences { file_names });
        proof {
            assert(command_views(commands@) =~= seq![
                QueuedCommandView::StopMusic,
                QueuedCommandView::AppendSilences { file_names: names },
            ]);
        }
        let ghost batches_before = batches@;
        let batch = QueuedExport { commands, state: None };
        let ghost batch_view = batch@;
        batches.push(batch);
        proof {
            assert(batch_views(batches@) =~= batch_views(batches_before).push(batch_view));
        }
        self.batches = batches;
    }

    /// Begins an export of the music of `state`. Where each track is exported
    /// to a file of its own, the batches of the tracks are queued in place of
    /// what waits, and nothing is handed out. Else what waits is left, and the
    /// one batch of the export is handed out, to be sent at once: silence, the
    /// export to the file called `base` and `extension`, and the commands that
    /// play the tracks from the first pulse.
    pub fn export(
        &mut self,
        base: &str,
        extension: &str,
        state: &State,
        synth_state: &SynthState,
        exporter: &Exporter,
    ) -> (batch: Option<QueuedExport>)
        ensures
            exporter.multi_file ==> batch.is_none() && final(self)@ == state.music.midi_tracks@.filter(
                playable(any_solo(state.music.midi_tracks@)),
            ).map_values(
                batching(
                    state.time.spec_bpm(),
                    exporter.framerate,
                    base@,
                    extension@,
                    exporter.multi_file_suffix,
                    synth_state@.programs,
                ),
            ).push(
                last_batch(
                    state.music.midi_tracks@.filter(
                        playable(any_solo(state.music.midi_tracks@)),
                    ).map_values(
                        naming(base@, extension@, exporter.multi_file_suffix, synth_state@.programs),
                    ),
                ),
            ),
            !exporter.multi_file ==> final(self)@ == old(self)@ && batch.is_some()
                && batch.unwrap()@ == single_batch(
                state.music.midi_tracks@.filter(playable(any_solo(state.music.midi_tracks@))),
                state.time.spec_bpm(),
                exporter.framerate,
                spec_file_name(base@, None, extension@),
            ),
    {
        if exporter.multi_file {
            self.queue_multi_file_export(base, extension, state, synth_state, exporter);
            return None;
        }
        let (track_commands, t1) = combine_tracks_to_commands(state, exporter.framerate, 0);
        let export_state = ExportState::WritingWav { total_samples: t1, exported_samples: 0 };
        let name = file_name(base, &None, extension);
        let ghost name_view = name@;
        let ghost played = command_views(track_commands@);
        let mut commands: Vec<QueuedCommand> = Vec::new();
        commands.push(QueuedCommand::SoundOff);
        commands.push(QueuedCommand::Export { file_name: name, state: export_state });
        let ghost first = command_views(commands@);
        let ghost head = commands@;
        let ghost tail = track_commands@;
        let mut track_commands = track_commands;
        commands.append(&mut track_commands);
        proof {
            assert(first =~= seq![
                QueuedCommandView::SoundOff,
                QueuedCommandView::Export { file_name: name_view, state: export_state },
            ]);
            assert(commands@ =~= head + tail);
            assert(command_views(commands@) =~= first + played);
        }
        Some(QueuedExport { commands, state: Some(export_state) })
    }

    /// Hands out the batch whose turn it is, if no export is under way and a
    /// batch waits. While an export is under way nothing is handed out and
    /// nothing changes.
    pub fn poll(&mut self, exporting: bool) -> (batch: Option<QueuedExport>)
        ensures
            (exporting || old(self)@.len() == 0) ==> batch.is_none() && final(self)@ == old(self)@,
            (!exporting && old(self)@.len() > 0) ==> {
                &&& batch matches Some(b)
                &&& b@ == old(self)@[0]
                &&& final(self)@ == old(self)@.subrange(1, old(self)@.len() as int)
            },
    {
        if exporting || self.batches.len() == 0 {
            return None;
        }
        let ghost before = self.batches@;
        let batch = self.batches.remove(0);
        proof {
            assert(batch_views(self.batches@) =~= batch_views(before).subrange(
                1,
                before.len() as int,
            ));
        }
        Some(batch)
    }
}

} // verus!

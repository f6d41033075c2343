use crate::decayer::{DecayModel, Decayer};
use crate::export::{
    file_name, file_suffix, spec_file_name, spec_file_suffix, ExportState, ExportType, Exportable,
    MultiFileSuffix,
};
use crate::midi_event::MidiEvent;
use crate::midi_event_queue::{events_of, MidiEventQueue, TimedEvent};
use crate::music::{any_solo, playable, tracks_of, MidiTrack, Music};
use crate::schedule::{enqueue_track_events, track_end, track_events, tracks_end, tracks_events};
use crate::exporter::{Exporter, ExporterView};
use crate::synth_state::{ProgramView, SynthState};
use crate::time::Time;
use crate::timed::{
    due_after, due_at, due_by, is_time_ordered, lemma_due_at_first, lemma_due_in_turn,
    lemma_filter_narrower, lemma_filter_push, lemma_ordered_splits, sort_by_time,
};
use vstd::prelude::*;

verus! {

/// An `Exportable` as plain values.
pub struct FileView {
    /// The events that are left to render.
    pub events: Seq<TimedEvent>,
    /// The number of samples up to the end of the last note.
    pub total_samples: u64,
    /// The suffix of the file name, if it has one.
    pub suffix: Option<Seq<char>>,
}

impl View for Exportable {
    type V = FileView;

    open spec fn view(&self) -> FileView {
        FileView {
            events: self.events@,
            total_samples: self.total_samples,
            suffix: match self.suffix {
                Some(s) => Some(s@),
                None => None,
            },
        }
    }
}

/// The files of `files` as plain values.
pub open spec fn file_views(files: Seq<Exportable>) -> Seq<FileView> {
    files.map_values(|f: Exportable| f@)
}

/// The name of the preset of `channel`, or nothing where it has no program.
pub open spec fn preset_name_of(programs: Map<u8, ProgramView>, channel: u8) -> Seq<char> {
    if programs.contains_key(channel) {
        programs[channel].preset_name
    } else {
        Seq::<char>::empty()
    }
}

/// The file of one track in an export of one file for each track: the events
/// of all its notes in ascending order of time, up to the sample at which its
/// last note ends, under the suffix of the track.
pub open spec fn track_file(
    track: MidiTrack,
    bpm: u64,
    framerate: u32,
    policy: MultiFileSuffix,
    programs: Map<u8, ProgramView>,
) -> FileView {
    FileView {
        events: sort_by_time(track_events(track, 0, bpm, framerate)),
        total_samples: track_end(track, 0, bpm, framerate),
        suffix: Some(
            spec_file_suffix(policy, track.channel, preset_name_of(programs, track.channel)),
        ),
    }
}

/// The one file of an export of all tracks together: the events of all notes
/// of the tracks in ascending order of time, up to the sample at which the
/// last note ends, without a suffix.
pub open spec fn combined_file(tracks: Seq<MidiTrack>, bpm: u64, framerate: u32) -> FileView {
    FileView {
        events: sort_by_time(tracks_events(tracks, 0, bpm, framerate)),
        total_samples: tracks_end(tracks, 0, bpm, framerate),
        suffix: None,
    }
}

/// Makes each track its file.
pub open spec fn filing(
    bpm: u64,
    framerate: u32,
    policy: MultiFileSuffix,
    programs: Map<u8, ProgramView>,
) -> spec_fn(MidiTrack) -> FileView {
    |track: MidiTrack| track_file(track, bpm, framerate, policy, programs)
}

/// The files of an export of `tracks`: one for each track, in their order,
/// or one for all of them.
pub open spec fn spec_exportables(
    tracks: Seq<MidiTrack>,
    bpm: u64,
    framerate: u32,
    multi_file: bool,
    policy: MultiFileSuffix,
    programs: Map<u8, ProgramView>,
) -> Seq<FileView> {
    if multi_file {
        tracks.map_values(filing(bpm, framerate, policy, programs))
    } else {
        seq![combined_file(tracks, bpm, framerate)]
    }
}

/// Where no note ends before it starts, no event of a file of an export is
/// due after the last sample of the file: the length of a file is that of its
/// music up to the end of the last note.
pub proof fn law_events_end_with_the_file(
    tracks: Seq<MidiTrack>,
    bpm: u64,
    framerate: u32,
    multi_file: bool,
    policy: MultiFileSuffix,
    programs: Map<u8, ProgramView>,
    file: int,
    i: int,
)
    requires
        bpm > 0,
        crate::schedule::tracks_are_whole(tracks),
        0 <= file < spec_exportables(tracks, bpm, framerate, multi_file, policy, programs).len(),
        0 <= i < spec_exportables(
            tracks,
            bpm,
            framerate,
            multi_file,
            policy,
            programs,
        )[file].events.len(),
    ensures
        spec_exportables(tracks, bpm, framerate, multi_file, policy, programs)[file].events[i].sample_time
            <= spec_exportables(
            tracks,
            bpm,
            framerate,
            multi_file,
            policy,
            programs,
        )[file].total_samples,
        multi_file ==> spec_exportables(tracks, bpm, framerate, multi_file, policy, programs).len()
            == tracks.len(),
        !multi_file ==> spec_exportables(tracks, bpm, framerate, multi_file, policy, programs).len()
            == 1,
{
    let files = spec_exportables(tracks, bpm, framerate, multi_file, policy, programs);
    let sorted = files[file].events;
    if multi_file {
        let track = tracks[file];
        let events = track_events(track, 0, bpm, framerate);
        crate::timed::lemma_sort_by_time(events);
        crate::timed::lemma_stable_sort_same_items(sorted, events, sorted[i]);
        assert(sorted.contains(sorted[i]));
        let j = choose|j: int| 0 <= j < events.len() && events[j] == sorted[i];
        crate::schedule::lemma_playback_notes(track, 0);
        crate::schedule::lemma_note_events_end(
            crate::schedule::playback_notes(track, 0),
            track.channel,
            bpm,
            framerate,
            j,
        );
    } else {
        let events = tracks_events(tracks, 0, bpm, framerate);
        crate::timed::lemma_sort_by_time(events);
        crate::timed::lemma_stable_sort_same_items(sorted, events, sorted[i]);
        assert(sorted.contains(sorted[i]));
        let j = choose|j: int| 0 <= j < events.len() && events[j] == sorted[i];
        crate::schedule::lemma_tracks_events_span(tracks, 0, bpm, framerate, j);
    }
}

/// The events of each file of an export are in order of time, and those
/// that are due at one time stand in the order in which their notes were
/// scheduled: track by track, note by note, the start before the end.
pub proof fn law_files_are_in_order_of_time(
    tracks: Seq<MidiTrack>,
    bpm: u64,
    framerate: u32,
    multi_file: bool,
    policy: MultiFileSuffix,
    programs: Map<u8, ProgramView>,
    file: int,
    time: u64,
)
    requires
        0 <= file < spec_exportables(tracks, bpm, framerate, multi_file, policy, programs).len(),
    ensures
        is_time_ordered(
            spec_exportables(tracks, bpm, framerate, multi_file, policy, programs)[file].events,
        ),
        spec_exportables(tracks, bpm, framerate, multi_file, policy, programs)[file].events.filter(
            due_at::<TimedEvent>(time),
        ) == if multi_file {
            track_events(tracks[file], 0, bpm, framerate).filter(due_at::<TimedEvent>(time))
        } else {
            tracks_events(tracks, 0, bpm, framerate).filter(due_at::<TimedEvent>(time))
        },
{
    if multi_file {
        crate::timed::lemma_sort_by_time(track_events(tracks[file], 0, bpm, framerate));
    } else {
        crate::timed::lemma_sort_by_time(tracks_events(tracks, 0, bpm, framerate));
    }
}

/// The suffix of the file of `track`: its channel, the name of its preset,
/// or both, as `policy` says. A track without a program has a preset without
/// a name.
pub fn get_export_file_suffix(
    policy: MultiFileSuffix,
    synth_state: &SynthState,
    track: &MidiTrack,
) -> (suffix: String)
    ensures
        suffix@ == spec_file_suffix(
            policy,
            track.channel,
            preset_name_of(synth_state@.programs, track.channel),
        ),
{
    match synth_state.get_program(track.channel) {
        Some(program) => file_suffix(policy, track.channel, program.preset_name.as_str()),
        None => {
            proof {
                reveal_strlit("");
                assert(""@ =~= Seq::<char>::empty());
            }
            file_suffix(policy, track.channel, "")
        },
    }
}

/// The files of an export of the tracks of `music` that are played: one for
/// each track where `multi_file` is set, else one for all of them.
pub fn get_exportables(
    music: &Music,
    time: &Time,
    framerate: u32,
    multi_file: bool,
    policy: MultiFileSuffix,
    synth_state: &SynthState,
) -> (files: Vec<Exportable>)
    ensures
        file_views(files@) == spec_exportables(
            music.midi_tracks@.filter(playable(any_solo(music.midi_tracks@))),
            time.spec_bpm(),
            framerate,
            multi_file,
            policy,
            synth_state@.programs,
        ),
{
    let tracks = music.get_playable_tracks();
    let ghost played = tracks_of(tracks@);
    let ghost bpm = time.spec_bpm();
    let ghost programs = synth_state@.programs;
    let mut files: Vec<Exportable> = Vec::new();
    let n: usize = tracks.len();
    let mut i: usize = 0;
    if multi_file {
        while i < n
            invariant
                n == tracks.len(),
                i <= n,
                played == tracks_of(tracks@),
                bpm == time.spec_bpm(),
                programs == synth_state@.programs,
                file_views(files@) == played.subrange(0, i as int).map_values(
                    filing(bpm, framerate, policy, programs),
                ),
            decreases n - i,
        {
            let track = tracks[i];
            let mut events = MidiEventQueue::new();
            let mut t1: u64 = 0;
            enqueue_track_events(track, time, framerate, 0, &mut events, &mut t1);
            events.sort();
            let suffix = Some(get_export_file_suffix(policy, synth_state, track));
            let ghost before = files@;
            proof {
                assert(Seq::<TimedEvent>::empty() + track_events(*track, 0, bpm, framerate)
                    =~= track_events(*track, 0, bpm, framerate));
                assert(events@ == sort_by_time(track_events(*track, 0, bpm, framerate)));
            }
            let file = Exportable { events, total_samples: t1, suffix };
            let ghost made = file@;
            proof {
                assert(made == track_file(*track, bpm, framerate, policy, programs));
            }
            files.push(file);
            proof {
                assert(played[i as int] == *track);
                assert(file_views(files@) =~= file_views(before).push(made));
                assert(file_views(files@) =~= played.subrange(0, i + 1).map_values(
                    filing(bpm, framerate, policy, programs),
                ));
            }
            i += 1;
        }
        proof {
            assert(played.subrange(0, n as int) =~= played);
        }
    } else {
        let mut events = MidiEventQueue::new();
        let mut t1: u64 = 0;
        proof {
            assert(played.subrange(0, 0) =~= Seq::<MidiTrack>::empty());
        }
        while i < n
            invariant
                n == tracks.len(),
                i <= n,
                played == tracks_of(tracks@),
                bpm == time.spec_bpm(),
                events@ == tracks_events(played.subrange(0, i as int), 0, bpm, framerate),
                t1 == tracks_end(played.subrange(0, i as int), 0, bpm, framerate),
            decreases n - i,
        {
            proof {
                assert(played.subrange(0, i + 1).drop_last() =~= played.subrange(0, i as int));
                assert(played.subrange(0, i + 1).last() == *tracks@[i as int]);
            }
            enqueue_track_events(tracks[i], time, framerate, 0, &mut events, &mut t1);
            i += 1;
        }
        proof {
            assert(played.subrange(0, n as int) =~= played);
        }
        events.sort();
        files.push(Exportable { events, total_samples: t1, suffix: None });
        proof {
            assert(file_views(files@) =~= seq![combined_file(played, bpm, framerate)]);
        }
    }
    files
}

/// What is to be done next for an export.
#[derive(Clone, Copy, Debug, PartialEq, Eq, Structural)]
pub enum ExportStep {
    /// Make room for this many frames: a file begins.
    Begin { total_samples: u64 },
    /// Hand the events of the step to the synthesizer, in their order, then
    /// read one frame from it into the place `index`.
    Render { index: u64 },
    /// Read one frame from the synthesizer, append it, and show it to the
    /// session.
    Decay,
    /// Encode the frames and write the file of this position.
    Write { file: usize },
    /// The file is written.
    FileDone,
    /// Every file is written.
    Finished,
}

/// An `ExportSession` as plain values.
pub struct SessionView {
    /// The files of the export.
    pub files: Seq<FileView>,
    /// The position of the file that is exported now.
    pub current: nat,
    /// The sample of that file that is rendered next.
    pub sample: u64,
    /// The phase of the export.
    pub state: ExportState,
    /// The decay detector.
    pub decayer: DecayModel,
    /// The settings of the export.
    pub settings: ExporterView,
    /// The path that the export was asked to write to.
    pub path: Seq<char>,
}

impl SessionView {
    /// The events that the next step hands out for the synthesizer: where
    /// the step renders a sample, the events of the file that are due at or
    /// before it, in the order of the queue; else none.
    pub open spec fn due(self) -> Seq<MidiEvent> {
        if self.current < self.files.len() && self.state is WritingWav && self.sample
            < self.files[self.current as int].total_samples {
            events_of(
                self.files[self.current as int].events.filter(due_by::<TimedEvent>(self.sample)),
            )
        } else {
            Seq::<MidiEvent>::empty()
        }
    }

    /// The session after its next step, and the step.
    ///
    /// File by file: the file begins; each sample before the end of its last
    /// note is rendered after the events due at it left the queue, which
    /// `due` hands out; the sound that is left is appended while the decay
    /// detector says that it fades; the file is written; the file is done.
    /// After the last file the export is over.
    pub open spec fn next(self) -> (SessionView, ExportStep) {
        if self.current >= self.files.len() {
            (SessionView { state: ExportState::NotExporting, ..self }, ExportStep::Finished)
        } else {
            let file = self.files[self.current as int];
            match self.state {
                ExportState::NotExporting | ExportState::Done => (
                    SessionView {
                        state: ExportState::WritingWav {
                            total_samples: file.total_samples,
                            exported_samples: 0,
                        },
                        sample: 0,
                        ..self
                    },
                    ExportStep::Begin { total_samples: file.total_samples },
                ),
                ExportState::WritingWav { .. } => if self.sample < file.total_samples {
                    (
                        SessionView {
                            files: self.files.update(
                                self.current as int,
                                FileView {
                                    events: file.events.filter(due_after::<TimedEvent>(self.sample)),
                                    ..file
                                },
                            ),
                            sample: (self.sample + 1) as u64,
                            state: ExportState::WritingWav {
                                total_samples: file.total_samples,
                                exported_samples: self.sample,
                            },
                            ..self
                        },
                        ExportStep::Render { index: self.sample },
                    )
                } else {
                    SessionView {
                        decayer: DecayModel::started(self.decayer.limit),
                        ..self
                    }.after_frame()
                },
                ExportState::AppendingDecay => self.after_frame(),
                ExportState::WritingToDisk => (
                    SessionView {
                        state: ExportState::Done,
                        current: self.current + 1,
                        ..self
                    },
                    ExportStep::FileDone,
                ),
            }
        }
    }

    /// The step after the music or after a frame of the sound that is left:
    /// one more frame while the sound fades, then the writing of the file.
    pub open spec fn after_frame(self) -> (SessionView, ExportStep) {
        if self.decayer.decaying {
            (SessionView { state: ExportState::AppendingDecay, ..self }, ExportStep::Decay)
        } else {
            (
                SessionView { state: ExportState::WritingToDisk, ..self },
                ExportStep::Write { file: self.current as usize },
            )
        }
    }

    /// The session after its next `n` steps.
    pub open spec fn after_steps(self, n: nat) -> SessionView
        decreases n,
    {
        if n == 0 {
            self
        } else {
            self.after_steps((n - 1) as nat).next().0
        }
    }

    /// The events that the next `n` steps hand out for the synthesizer, in
    /// the order in which they are handed out.
    pub open spec fn handed_out(self, n: nat) -> Seq<MidiEvent>
        decreases n,
    {
        if n == 0 {
            Seq::<MidiEvent>::empty()
        } else {
            self.handed_out((n - 1) as nat) + self.after_steps((n - 1) as nat).due()
        }
    }

    /// The number of files that are still to be written.
    pub open spec fn files_left(self) -> nat {
        if self.current >= self.files.len() {
            0
        } else if self.state == ExportState::WritingToDisk {
            (self.files.len() - self.current - 1) as nat
        } else {
            (self.files.len() - self.current) as nat
        }
    }
}

/// Each file of an export is written once: a step leaves one file less to
/// write if it is the writing of a file, which then is the file whose turn it
/// is, and else as many as before; and the export is over only when none is
/// left.
pub proof fn law_each_file_is_written_once(session: SessionView)
    ensures
        session.next().1 is Write ==> session.next().0.files_left() + 1 == session.files_left(),
        session.next().1 matches ExportStep::Write { file } ==> file == session.current as usize
            && session.current < session.files.len(),
        !(session.next().1 is Write) ==> session.next().0.files_left() == session.files_left(),
        session.next().1 == ExportStep::Finished ==> session.files_left() == 0,
        session.next().0.files.len() == session.files.len(),
{
}

/// The samples of a file are rendered one after the other, from the first:
/// the step that renders a sample renders the sample whose turn it is, takes
/// the events that are due at it out of the queue of the file, and leaves the
/// next sample to be rendered; and no other step moves on in the file.
pub proof fn law_samples_are_rendered_in_order(session: SessionView)
    ensures
        session.next().1 matches ExportStep::Render { index } ==> {
            &&& index == session.sample
            &&& session.current < session.files.len()
            &&& index < session.files[session.current as int].total_samples
            &&& session.next().0.sample == index + 1
            &&& session.next().0.current == session.current
            &&& session.next().0.files[session.current as int].events
                == session.files[session.current as int].events.filter(
                due_after::<TimedEvent>(index),
            )
        },
        session.next().1 is Decay || session.next().1 is Write ==> session.next().0.sample
            == session.sample && session.next().0.files == session.files,
        session.next().1 matches ExportStep::Begin { total_samples } ==> session.next().0.sample == 0
            && total_samples == session.files[session.current as int].total_samples,
{
}

/// No step changes the settings of an export, its path, or the number or the
/// length of its files.
pub proof fn law_a_session_keeps_its_settings(session: SessionView)
    ensures
        session.next().0.settings == session.settings,
        session.next().0.path == session.path,
        session.next().0.files.len() == session.files.len(),
        forall|i: int|
            0 <= i < session.files.len() ==> (#[trigger] session.next().0.files[i]).total_samples
                == session.files[i].total_samples && session.next().0.files[i].suffix
                == session.files[i].suffix,
{
}

/// A file is rendered sample by sample, and each event is handed out once,
/// in the order of the queue, before the first sample that it is due at or
/// before is read.
///
/// Of a file that has begun, with its events in order of time and `n` no
/// more than its samples up to the end of its last note: each of the next `n`
/// steps renders the sample of its turn and hands out the events that are
/// due at it. Together the steps hand out the events that are due before
/// sample `n`, which are the front of the queue, and leave in the queue the
/// events that are due at sample `n` or later, which are the rest of it.
/// Once as many samples are rendered as the file has up to the end of its
/// last note, no further sample is rendered and no event is handed out: the
/// sound that is left is appended, or the file is written.
pub proof fn law_events_are_handed_out_in_order(session: SessionView, n: nat)
    requires
        session.current < session.files.len(),
        session.state is WritingWav,
        session.sample == 0,
        is_time_ordered(session.files[session.current as int].events),
        n <= session.files[session.current as int].total_samples,
    ensures
        session.after_steps(n).sample == n,
        session.after_steps(n).current == session.current,
        session.after_steps(n).state is WritingWav,
        session.after_steps(n).files.len() == session.files.len(),
        session.after_steps(n).files[session.current as int].total_samples
            == session.files[session.current as int].total_samples,
        n == 0 ==> session.handed_out(n).len() == 0 && session.after_steps(n) == session,
        n == session.files[session.current as int].total_samples ==> session.after_steps(n).due().len()
            == 0 && (session.after_steps(n).next().1 is Decay || session.after_steps(n).next().1 is Write),
        n > 0 ==> {
            let queue = session.files[session.current as int].events;
            let last = (n - 1) as u64;
            let sent = queue.filter(due_by::<TimedEvent>(last));
            let before = session.after_steps((n - 1) as nat);
            &&& before.next().1 == (ExportStep::Render { index: last })
            &&& before.due() == events_of(queue.filter(due_at::<TimedEvent>(last)))
            &&& session.handed_out(n) == events_of(sent)
            &&& sent == queue.subrange(0, sent.len() as int)
            &&& session.after_steps(n).files[session.current as int].events == queue.filter(
                due_after::<TimedEvent>(last),
            )
            &&& session.after_steps(n).files[session.current as int].events == queue.subrange(
                sent.len() as int,
                queue.len() as int,
            )
        },
    decreases n,
{
    if n > 0 {
        let m = (n - 1) as nat;
        let t = m as u64;
        let queue = session.files[session.current as int].events;
        let before = session.after_steps(m);
        let waiting = before.files[session.current as int].events;
        law_events_are_handed_out_in_order(session, m);
        lemma_ordered_splits(queue, t);
        if m == 0 {
            lemma_due_at_first(queue);
            assert(session.handed_out(n) =~= before.due());
        } else {
            let s = (m - 1) as u64;
            lemma_filter_narrower(queue, due_after::<TimedEvent>(s), due_after::<TimedEvent>(t));
            lemma_due_after_and_by(queue, s, t);
            lemma_due_in_turn(queue, s, t);
            lemma_ordered_splits(queue, s);
            let k1 = queue.filter(due_by::<TimedEvent>(s)).len() as int;
            let k2 = queue.filter(due_by::<TimedEvent>(t)).len() as int;
            assert(events_of(queue.subrange(0, k2)) =~= events_of(queue.subrange(0, k1))
                + events_of(queue.subrange(k1, k2)));
        }
    }
}

/// With `t` the sample after `s`, the events that are due after `s` and by
/// `t` are those due at `t`.
proof fn lemma_due_after_and_by(queue: Seq<TimedEvent>, s: u64, t: u64)
    requires
        t == s + 1,
    ensures
        queue.filter(due_after::<TimedEvent>(s)).filter(due_by::<TimedEvent>(t)) == queue.filter(
            due_at::<TimedEvent>(t),
        ),
    decreases queue.len(),
{
    reveal(Seq::filter);
    if queue.len() > 0 {
        let rest = queue.drop_last();
        let x = queue.last();
        lemma_due_after_and_by(rest, s, t);
        assert(rest.push(x) =~= queue);
        lemma_filter_push(rest, x, due_after::<TimedEvent>(s));
        lemma_filter_push(rest, x, due_at::<TimedEvent>(t));
        if x.sample_time > s {
            lemma_filter_push(
                rest.filter(due_after::<TimedEvent>(s)),
                x,
                due_by::<TimedEvent>(t),
            );
        }
    }
}

/// An export that is under way: its files, their settings, and how far it is.
pub struct ExportSession {
    path: String,
    exportables: Vec<Exportable>,
    exporter: Exporter,
    current: usize,
    sample: u64,
    state: ExportState,
    decayer: Decayer,
}

impl View for ExportSession {
    type V = SessionView;

    closed spec fn view(&self) -> SessionView {
        SessionView {
            files: file_views(self.exportables@),
            current: self.current as nat,
            sample: self.sample,
            state: self.state,
            decayer: self.decayer@,
            settings: self.exporter@,
            path: self.path@,
        }
    }
}

impl ExportSession {
    #[verifier::type_invariant]
    spec fn renders_audio(&self) -> bool {
        self.exporter@.export_type() != ExportType::Mid
    }

    /// An export of `files` to `path` with the settings `exporter` that has
    /// not begun. The sound that is left after the music of a file is appended
    /// for at most `decay_limit` frames. Only audio is rendered: the format of
    /// the settings is not MIDI.
    pub fn new(
        path: String,
        files: Vec<Exportable>,
        exporter: Exporter,
        decay_limit: u64,
    ) -> (session: ExportSession)
        requires
            exporter@.export_type() != ExportType::Mid,
        ensures
            session@.path == path@,
            session@.files == file_views(files@),
            session@.current == 0,
            session@.sample == 0,
            session@.state == ExportState::NotExporting,
            session@.decayer == (DecayModel {
                decaying: false,
                ..DecayModel::started(decay_limit as nat)
            }),
            session@.settings == exporter@,
            session@.files_left() == files@.len(),
    {
        ExportSession {
            path,
            exportables: files,
            exporter,
            current: 0,
            sample: 0,
            state: ExportState::NotExporting,
            decayer: Decayer::new(decay_limit),
        }
    }

    /// The path that the export was asked to write to.
    pub fn path(&self) -> (path: &String)
        ensures
            path@ == self@.path,
    {
        &self.path
    }

    /// The number of frames of the file at position `file` up to the end of
    /// its last note.
    pub fn total_samples(&self, file: usize) -> (total: Option<u64>)
        ensures
            file >= self@.files.len() <==> total.is_none(),
            total matches Some(t) ==> t == self@.files[file as int].total_samples,
    {
        if file < self.exportables.len() {
            proof {
                assert(self@.files[file as int] == self.exportables@[file as int]@);
            }
            Some(self.exportables[file].total_samples)
        } else {
            None
        }
    }

    /// The phase of the export.
    pub fn state(&self) -> (state: ExportState)
        ensures
            state == self@.state,
    {
        self.state
    }

    /// The settings of the export, as they were when it was asked for.
    pub fn exporter(&self) -> (exporter: &Exporter)
        ensures
            exporter@ == self@.settings,
            exporter@.export_type() != ExportType::Mid,
    {
        proof {
            use_type_invariant(self);
        }
        &self.exporter
    }

    /// The number of files of the export.
    pub fn num_files(&self) -> (n: usize)
        ensures
            n == self@.files.len(),
    {
        self.exportables.len()
    }

    /// The name of the file at position `file`: `base`, the suffix of the
    /// file where it has one, and the extension of the format.
    pub fn file_name(&self, base: &str, file: usize) -> (name: Option<String>)
        ensures
            file >= self@.files.len() <==> name.is_none(),
            name matches Some(n) ==> n@ == spec_file_name(
                base@,
                self@.files[file as int].suffix,
                self@.settings.export_type().spec_extension(),
            ),
    {
        if file < self.exportables.len() {
            proof {
                assert(self@.files[file as int] == self.exportables@[file as int]@);
            }
            Some(
                file_name(
                    base,
                    &self.exportables[file].suffix,
                    self.exporter.get_export_type().extension(),
                ),
            )
        } else {
            None
        }
    }

    /// Shows the session a frame of the sound that is left after the music,
    /// and returns whether the sound still fades. Outside that phase of the
    /// export nothing changes.
    pub fn observe(&mut self, left: i16, right: i16) -> (decaying: bool)
        ensures
            final(self)@ == (SessionView {
                decayer: if old(self)@.state == ExportState::AppendingDecay {
                    old(self)@.decayer.observe(left, right)
                } else {
                    old(self)@.decayer
                },
                ..old(self)@
            }),
            decaying == final(self)@.decayer.decaying,
    {
        proof {
            use_type_invariant(&*self);
        }
        match self.state {
            ExportState::AppendingDecay => {
                let mut decayer = Decayer::new(0);
                std::mem::swap(&mut decayer, &mut self.decayer);
                let decaying = decayer.observe(left, right);
                std::mem::swap(&mut decayer, &mut self.decayer);
                decaying
            },
            _ => self.decayer.decaying(),
        }
    }

    /// Takes the next step of the export and says what is to be done, and
    /// which events are to be handed to the synthesizer first: those that are
    /// due at a sample, in their order, before the sample is read.
    pub fn next(&mut self) -> (step: (ExportStep, Vec<MidiEvent>))
        ensures
            (final(self)@, step.0) == old(self)@.next(),
            step.1@ == old(self)@.due(),
    {
        proof {
            use_type_invariant(&*self);
        }
        if self.current >= self.exportables.len() {
            self.state = ExportState::NotExporting;
            return (ExportStep::Finished, Vec::new());
        }
        let total_samples = self.exportables[self.current].total_samples;
        proof {
            assert(self@.files[self.current as int] == self.exportables@[self.current as int]@);
        }
        match self.state {
            ExportState::NotExporting | ExportState::Done => {
                self.state = ExportState::WritingWav { total_samples, exported_samples: 0 };
                self.sample = 0;
                (ExportStep::Begin { total_samples }, Vec::new())
            },
            ExportState::WritingWav { .. } => {
                if self.sample < total_samples {
                    let index = self.sample;
                    let ghost before = self.exportables@;
                    let mut file = Exportable {
                        events: MidiEventQueue::new(),
                        total_samples: 0,
                        suffix: None,
                    };
                    std::mem::swap(&mut file, &mut self.exportables[self.current]);
                    let events = file.events.dequeue(index);
                    std::mem::swap(&mut file, &mut self.exportables[self.current]);
                    self.state = ExportState::WritingWav { total_samples, exported_samples: index };
                    self.sample = index + 1;
                    proof {
                        assert(file_views(self.exportables@) =~= file_views(before).update(
                            self.current as int,
                            FileView {
                                events: before[self.current as int]@.events.filter(
                                    due_after::<TimedEvent>(index),
                                ),
                                ..before[self.current as int]@
                            },
                        ));
                    }
                    (ExportStep::Render { index }, events)
                } else {
                    let mut decayer = Decayer::new(0);
                    std::mem::swap(&mut decayer, &mut self.decayer);
                    decayer.start();
                    std::mem::swap(&mut decayer, &mut self.decayer);
                    (self.after_frame(), Vec::new())
                }
            },
            ExportState::AppendingDecay => (self.after_frame(), Vec::new()),
            ExportState::WritingToDisk => {
                self.state = ExportState::Done;
                self.current = self.current + 1;
                (ExportStep::FileDone, Vec::new())
            },
        }
    }

    fn after_frame(&mut self) -> (step: ExportStep)
        requires
            old(self).current < old(self).exportables.len(),
        ensures
            (final(self)@, step) == old(self)@.after_frame(),
    {
        proof {
            use_type_invariant(&*self);
        }
        if self.decayer.decaying() {
            self.state = ExportState::AppendingDecay;
            ExportStep::Decay
        } else {
            self.state = ExportState::WritingToDisk;
            ExportStep::Write { file: self.current }
        }
    }
}

} // verus!

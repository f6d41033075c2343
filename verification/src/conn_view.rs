use crate::command::{Command, Outcome};
use crate::conn::{LoadedFont, MAX_DECAY_SECONDS};
use crate::decayer::DecayModel;
use crate::export::{ExportState, ExportType};
use crate::export_session::{spec_exportables, ExportSession, SessionView};
use crate::exporter::Exporter;
use crate::loaded_fonts::is_first_with;
use crate::midi_event::MidiEvent;
use crate::midi_event_queue::{events_of, TimedEvent};
use crate::music::{any_solo, playable};
use crate::play_state::{PlaySignal, PlayState};
use crate::schedule::{
    lemma_tracks_events_span, notes_are_whole, silencing, tracks_are_whole, tracks_events,
};
use crate::soundfont_banks::{bank_numbers, catalog_of, is_catalog, lemma_banks_below};
use crate::state::State;
use crate::synth_state::{ProgramView, SynthStateView};
use crate::time::spec_ppq_to_samples;
use crate::timed::{due_after, due_by, lemma_sort_by_time, lemma_stable_sort_same_items, sort_by_time};
use vstd::prelude::*;

verus! {

/// A `LoadedFont` as plain values.
pub struct FontView {
    /// The path of the file.
    pub path: Seq<char>,
    /// For each bank of the file its presets, in ascending order.
    pub catalog: Map<u32, Seq<u8>>,
}

/// The loaded files of `fonts` as plain values.
pub open spec fn font_views(fonts: Seq<LoadedFont>) -> Seq<FontView> {
    fonts.map_values(|f: LoadedFont| f@)
}

/// The sessions of `sessions` as plain values.
pub open spec fn session_views(sessions: Seq<ExportSession>) -> Seq<SessionView> {
    sessions.map_values(|s: ExportSession| s@)
}

/// `program` names a preset of `catalog` by its numbers and by its place.
pub open spec fn is_program_of(catalog: Map<u32, Seq<u8>>, program: ProgramView) -> bool {
    &&& catalog.contains_key(program.bank)
    &&& program.num_banks == bank_numbers(catalog).len()
    &&& program.bank_index < program.num_banks
    &&& bank_numbers(catalog)[program.bank_index as int] == program.bank
    &&& program.num_presets == catalog[program.bank].len()
    &&& program.preset_index < program.num_presets
    &&& catalog[program.bank][program.preset_index as int] == program.preset
}

/// A file of `fonts` has the path of `program` and the preset that it names.
pub open spec fn is_loaded_program(fonts: Seq<FontView>, program: ProgramView) -> bool {
    exists|i: int|
        0 <= i < fonts.len() && (#[trigger] fonts[i]).path == program.path && is_program_of(
            fonts[i].catalog,
            program,
        )
}

/// No two files of `fonts` have the same path.
pub open spec fn paths_differ(fonts: Seq<FontView>) -> bool {
    forall|i: int, j: int|
        0 <= i < j < fonts.len() ==> (#[trigger] fonts[i]).path != (#[trigger] fonts[j]).path
}

/// The lowest preset of the lowest bank of a catalog with a bank.
pub open spec fn default_of(catalog: Map<u32, Seq<u8>>) -> (u32, u8) {
    (bank_numbers(catalog)[0], catalog[bank_numbers(catalog)[0]][0])
}

/// A program that the synthesizer is told again.
#[derive(Clone, Copy, Debug, PartialEq, Eq, Structural)]
pub struct Restored {
    /// The channel that has the program.
    pub channel: u8,
    /// The position of the file of the program among the loaded files.
    pub font: usize,
    /// The number of the bank.
    pub bank: u32,
    /// The number of the preset.
    pub preset: u8,
}

/// What a `Conn` holds, as plain values.
pub struct ConnView {
    /// The phase of the export that is under way, if one is.
    pub export_state: ExportState,
    /// The frame rate of live playback, in samples per second.
    pub framerate: u32,
    /// The events that are scheduled for live playback.
    pub queue: Seq<TimedEvent>,
    /// The loaded bank files, in the order of their loading.
    pub fonts: Seq<FontView>,
    /// The record of what the synthesizer was told.
    pub state: SynthStateView,
    /// The phase of live playback.
    pub play_state: PlayState,
    /// The exports that wait for their turn, the next one first.
    pub pending: Seq<SessionView>,
}

impl ConnView {
    /// Every program that is recorded names a preset of a loaded file, and no
    /// file is loaded twice.
    pub open spec fn wf(self) -> bool {
        &&& paths_differ(self.fonts)
        &&& forall|channel: u8| #[trigger]
            self.state.programs.contains_key(channel) ==> is_loaded_program(
                self.fonts,
                self.state.programs[channel],
            )
    }

    /// Whether the loaded file at `font` has the preset `preset` in its bank
    /// `bank`.
    pub open spec fn has_preset(self, font: int, bank: u32, preset: u8) -> bool {
        &&& 0 <= font < self.fonts.len()
        &&& self.fonts[font].catalog.contains_key(bank)
        &&& self.fonts[font].catalog[bank].contains(preset)
    }

    /// Whether the loaded file at `place` is the first with the path `path`.
    pub open spec fn is_first_place(self, path: Seq<char>, place: int) -> bool {
        is_first_with(self.fonts, path, place)
    }

    /// The place of the first loaded file with the path `path`, or the number
    /// of loaded files where none has it.
    pub open spec fn place_of(self, path: Seq<char>) -> int {
        if exists|i: int| self.is_first_place(path, i) {
            choose|i: int| self.is_first_place(path, i)
        } else {
            self.fonts.len() as int
        }
    }

    /// The programs of the channels below `limit` that are programs of
    /// another loaded file than the file at `except`, in ascending order of
    /// the channels.
    pub open spec fn restored(self, except: int, limit: nat) -> Seq<Restored>
        decreases limit,
    {
        if limit == 0 {
            Seq::<Restored>::empty()
        } else {
            let before = self.restored(except, (limit - 1) as nat);
            let channel = (limit - 1) as u8;
            let program = self.state.programs[channel];
            let place = self.place_of(program.path);
            if self.state.programs.contains_key(channel) && place < self.fonts.len() && place
                != except {
                before.push(
                    Restored {
                        channel,
                        font: place as usize,
                        bank: program.bank,
                        preset: program.preset,
                    },
                )
            } else {
                before
            }
        }
    }

    /// The connection with one more loaded file, read from `path`, that
    /// defines the presets `defined`; or the connection as it is, where a file
    /// with this path is loaded already.
    pub open spec fn loaded(self, path: Seq<char>, defined: Set<(u32, u8)>) -> ConnView {
        if self.place_of(path) < self.fonts.len() {
            self
        } else {
            ConnView {
                fonts: self.fonts.push(FontView { path, catalog: catalog_of(defined) }),
                ..self
            }
        }
    }

    /// `after` is the connection once the synthesizer has given `channel`
    /// the preset `preset` of bank `bank` of the loaded file at `font`: the
    /// program of the channel names that preset, with the name that the
    /// synthesizer reported, and nothing else has changed.
    pub open spec fn has_selected(
        self,
        after: ConnView,
        channel: u8,
        font: int,
        bank: u32,
        preset: u8,
    ) -> bool {
        let program = after.state.programs[channel];
        &&& 0 <= font < self.fonts.len()
        &&& after == (ConnView {
            state: SynthStateView {
                programs: self.state.programs.insert(channel, program),
                ..self.state
            },
            ..self
        })
        &&& program.path == self.fonts[font].path
        &&& program.bank == bank
        &&& program.preset == preset
        &&& is_program_of(self.fonts[font].catalog, program)
    }

    /// `after` is the connection once the synthesizer has given `channel`
    /// the lowest preset of the lowest bank of the loaded file at `font`.
    pub open spec fn has_selected_default(self, after: ConnView, channel: u8, font: int) -> bool {
        &&& 0 <= font < self.fonts.len()
        &&& exists|bank: u32| self.fonts[font].catalog.contains_key(bank)
        &&& self.has_selected(
            after,
            channel,
            font,
            default_of(self.fonts[font].catalog).0,
            default_of(self.fonts[font].catalog).1,
        )
    }

    /// The connection after the music was started from the start of playback.
    pub open spec fn started(self, state: State) -> ConnView {
        self.started_from(state, state.time.spec_playback())
    }

    /// The connection after the music was started from the pulse `pulse`: the
    /// notes of the played tracks of `state`, from that pulse on, are
    /// scheduled behind what was scheduled, all in ascending order of time,
    /// and the music plays from the sample of the pulse.
    pub open spec fn started_from(self, state: State, pulse: u64) -> ConnView {
        ConnView {
            queue: sort_by_time(
                self.queue + tracks_events(
                    state.music.midi_tracks@.filter(playable(any_solo(state.music.midi_tracks@))),
                    pulse,
                    state.time.spec_bpm(),
                    self.framerate,
                ),
            ),
            play_state: PlayState::Playing(
                spec_ppq_to_samples(pulse, state.time.spec_bpm(), self.framerate),
            ),
            ..self
        }
    }

    /// The events that one sample of live playback hands out for the
    /// synthesizer: while the music plays, the scheduled events that are due
    /// at or before the sample, in the order of the queue; else none.
    pub open spec fn due(self) -> Seq<MidiEvent> {
        match self.play_state {
            PlayState::Playing(time) => events_of(self.queue.filter(due_by::<TimedEvent>(time))),
            _ => Seq::<MidiEvent>::empty(),
        }
    }

    /// The connection after one sample of live playback.
    pub open spec fn ticked(self) -> ConnView {
        match self.play_state {
            PlayState::Playing(time) => {
                let queue = self.queue.filter(due_after::<TimedEvent>(time));
                ConnView {
                    queue,
                    play_state: self.play_state.spec_next(
                        if queue.len() == 0 {
                            PlaySignal::EndOfEvents
                        } else {
                            PlaySignal::Advance
                        },
                    ),
                    ..self
                }
            },
            _ => self,
        }
    }

    /// The session that an export of the music of `state` to `path` with the
    /// settings `exporter` begins with.
    pub open spec fn is_new_session(
        self,
        session: SessionView,
        state: State,
        path: Seq<char>,
        exporter: Exporter,
    ) -> bool {
        &&& session.path == path
        &&& session.files == spec_exportables(
            state.music.midi_tracks@.filter(playable(any_solo(state.music.midi_tracks@))),
            state.time.spec_bpm(),
            exporter.framerate,
            exporter.multi_file,
            exporter.multi_file_suffix,
            self.state.programs,
        )
        &&& session.current == 0
        &&& session.sample == 0
        &&& session.state == ExportState::NotExporting
        &&& session.decayer == (DecayModel {
            decaying: false,
            ..DecayModel::started((exporter.framerate as nat) * (MAX_DECAY_SECONDS as nat))
        })
        &&& session.settings == exporter@
    }

    /// The events that `command` leaves to be handed to the synthesizer: the
    /// note of a key that is struck or released, and what silences the
    /// channel of every track where music that does not rest is stopped.
    pub open spec fn events_of_command(self, state: State, command: Command) -> Seq<MidiEvent> {
        match command {
            Command::NoteOn { channel, key, velocity } => seq![
                MidiEvent::NoteOn { channel, key, vel: velocity },
            ],
            Command::NoteOff { channel, key } => seq![MidiEvent::NoteOff { channel, key }],
            Command::Stop => if self.play_state == PlayState::NotPlaying {
                Seq::<MidiEvent>::empty()
            } else {
                silencing(state.music.midi_tracks@)
            },
            _ => Seq::<MidiEvent>::empty(),
        }
    }

    /// `after` may be the connection after `command`, with `outcome` left to
    /// do. That depends on the synthesizer where the command asks it for a
    /// program: it may refuse, and the connection is then as it was.
    pub open spec fn may_become(
        self,
        state: State,
        command: Command,
        after: ConnView,
        outcome: Outcome,
    ) -> bool {
        match command {
            Command::LoadSoundFont { channel, path } => {
                let place = self.place_of(path@);
                if place < self.fonts.len() {
                    outcome == Outcome::Done && (after == self || self.has_selected_default(
                        after,
                        channel,
                        place,
                    ))
                } else {
                    outcome == Outcome::LoadFont && after == self
                }
            },
            Command::SetProgram { channel, path, bank_index, preset_index } => {
                let place = self.place_of(path@);
                outcome == Outcome::Done && (after == self || {
                    let catalog = self.fonts[place].catalog;
                    let bank = bank_numbers(catalog)[bank_index as int];
                    &&& place < self.fonts.len()
                    &&& bank_index < bank_numbers(catalog).len()
                    &&& preset_index < catalog[bank].len()
                    &&& self.has_selected(
                        after,
                        channel,
                        place,
                        bank,
                        catalog[bank][preset_index as int],
                    )
                })
            },
            Command::UnsetProgram { channel } => outcome == Outcome::Done && after == (ConnView {
                state: SynthStateView {
                    programs: self.state.programs.remove(channel),
                    ..self.state
                },
                ..self
            }),
            Command::SetGain { gain } => outcome == Outcome::ApplyGain && after == (ConnView {
                state: SynthStateView { gain, ..self.state },
                ..self
            }),
            Command::NoteOn { .. } => outcome == Outcome::Send && after == (ConnView {
                play_state: PlayState::Decaying,
                ..self
            }),
            Command::NoteOff { .. } => outcome == Outcome::Send && after == self,
            Command::PlayFrom { time } => outcome == Outcome::Done && after == if self.play_state
                == PlayState::NotPlaying {
                self.started_from(state, time)
            } else {
                self
            },
            Command::Stop => if self.play_state == PlayState::NotPlaying {
                outcome == Outcome::Done && after == self
            } else {
                outcome == Outcome::Send && after == (ConnView {
                    play_state: PlayState::Decaying,
                    ..self
                })
            },
            Command::Export { path, settings } => outcome == Outcome::Done && if settings.spec_export_type()
                == ExportType::Mid {
                after == self
            } else {
                &&& after.pending.len() == self.pending.len() + 1
                &&& after == (ConnView { pending: self.pending.push(after.pending.last()), ..self })
                &&& self.is_new_session(after.pending.last(), state, path@, settings)
            },
        }
    }

    /// `after` may be the connection after the commands of `commands`, one
    /// after the other, none of which left anything to do.
    pub open spec fn may_run(self, state: State, commands: Seq<Command>, after: ConnView) -> bool
        decreases commands.len(),
    {
        if commands.len() == 0 {
            after == self
        } else {
            exists|mid: ConnView|
                #![trigger mid.may_become(state, commands.last(), after, Outcome::Done)]
                self.may_run(state, commands.drop_last(), mid) && mid.may_become(
                    state,
                    commands.last(),
                    after,
                    Outcome::Done,
                )
        }
    }
}

/// A run of commands goes on by the step of one more command.
pub proof fn lemma_run_step(
    before: ConnView,
    state: State,
    commands: Seq<Command>,
    mid: ConnView,
    after: ConnView,
)
    requires
        commands.len() > 0,
        before.may_run(state, commands.drop_last(), mid),
        mid.may_become(state, commands.last(), after, Outcome::Done),
    ensures
        before.may_run(state, commands, after),
{
}

/// In a catalog with a bank, no bank is lower than the bank of `default_of`
/// and no preset of that bank is lower than its preset; a program of that
/// preset stands first among the banks and first in its bank.
pub proof fn law_default_is_lowest(catalog: Map<u32, Seq<u8>>, program: ProgramView)
    requires
        is_catalog(catalog),
        exists|bank: u32| catalog.contains_key(bank),
    ensures
        catalog.contains_key(default_of(catalog).0),
        forall|bank: u32| catalog.contains_key(bank) ==> default_of(catalog).0 <= bank,
        forall|i: int|
            0 <= i < catalog[default_of(catalog).0].len() ==> default_of(catalog).1
                <= #[trigger] catalog[default_of(catalog).0][i],
        (is_program_of(catalog, program) && program.bank == default_of(catalog).0 && program.preset
            == default_of(catalog).1) ==> program.bank_index == 0 && program.preset_index == 0,
{
    let banks = bank_numbers(catalog);
    lemma_banks_below(catalog, 129);
    let some = choose|bank: u32| catalog.contains_key(bank);
    assert(banks.contains(some));
    assert(catalog.contains_key(banks[0]));
    assert forall|bank: u32| catalog.contains_key(bank) implies banks[0] <= bank by {
        assert(banks.contains(bank));
        let i = choose|i: int| 0 <= i < banks.len() && banks[i] == bank;
        if i > 0 {
            assert(banks[0] < banks[i]);
        }
    }
    let presets = catalog[banks[0]];
    assert forall|i: int| 0 <= i < presets.len() implies presets[0] <= #[trigger] presets[i] by {
        if i > 0 {
            assert(presets[0] < presets[i]);
        }
    }
    if is_program_of(catalog, program) && program.bank == banks[0] && program.preset == presets[0] {
        if program.bank_index != 0 {
            assert(banks[0] < banks[program.bank_index as int]);
        }
        if program.preset_index != 0 {
            assert(presets[0] < presets[program.preset_index as int]);
        }
    }
}

/// Where nothing was scheduled and no note ends before it starts, nothing is
/// scheduled before the sample at which the music starts to play, whatever
/// the music, and stopping the music changes nothing of that.
pub proof fn law_nothing_is_scheduled_before_the_start(
    conn: ConnView,
    state: State,
    pulse: u64,
    i: int,
)
    requires
        conn.queue.len() == 0,
        state.time.spec_bpm() > 0,
        tracks_are_whole(state.music.midi_tracks@),
        0 <= i < conn.started_from(state, pulse).queue.len(),
    ensures
        conn.started_from(state, pulse).play_state == PlayState::Playing(
            spec_ppq_to_samples(pulse, state.time.spec_bpm(), conn.framerate),
        ),
        conn.started_from(state, pulse).queue[i].sample_time >= spec_ppq_to_samples(
            pulse,
            state.time.spec_bpm(),
            conn.framerate,
        ),
        conn.started_from(state, pulse).play_state.spec_next(PlaySignal::Stop)
            == PlayState::Decaying,
{
    let tracks = state.music.midi_tracks@;
    let played = tracks.filter(playable(any_solo(tracks)));
    let events = tracks_events(played, pulse, state.time.spec_bpm(), conn.framerate);
    let queue = conn.started_from(state, pulse).queue;
    assert(conn.queue + events =~= events);
    lemma_sort_by_time(events);
    lemma_stable_sort_same_items(queue, events, queue[i]);
    assert(queue.contains(queue[i]));
    let j = choose|j: int| 0 <= j < events.len() && events[j] == queue[i];
    assert(tracks_are_whole(played)) by {
        assert forall|k: int| 0 <= k < played.len() implies notes_are_whole(
            (#[trigger] played[k]).notes@,
        ) by {
            tracks.lemma_filter_contains_rev(playable(any_solo(tracks)), played[k]);
            let m = choose|m: int| 0 <= m < tracks.len() && tracks[m] == played[k];
            assert(notes_are_whole(tracks[m].notes@));
        }
    }
    lemma_tracks_events_span(
        played,
        pulse,
        state.time.spec_bpm(),
        conn.framerate,
        j,
    );
}

/// What was played is not played again: after a sample of playback the
/// queue holds only events of the queue that are due after that sample.
pub proof fn law_played_events_are_gone(conn: ConnView, i: int)
    requires
        conn.play_state is Playing,
        0 <= i < conn.ticked().queue.len(),
    ensures
        conn.play_state matches PlayState::Playing(time) && conn.ticked().queue[i].sample_time
            > time,
        conn.queue.contains(conn.ticked().queue[i]),
        conn.ticked().queue.len() <= conn.queue.len(),
{
    match conn.play_state {
        PlayState::Playing(time) => {
            let late = due_after::<TimedEvent>(time);
            conn.queue.lemma_filter_pred(late, i);
            conn.queue.lemma_filter_contains_rev(late, conn.queue.filter(late)[i]);
            conn.queue.lemma_filter_len(late);
        },
        _ => {},
    }
}

} // verus!

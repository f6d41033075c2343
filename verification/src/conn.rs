use crate::command::{Command, Outcome};
use crate::conn_view::{
    is_loaded_program, is_program_of, lemma_run_step, session_views, ConnView, FontView,
};
use crate::export::{ExportState, ExportType};
use crate::export_session::{get_exportables, ExportSession, SessionView};
use crate::exporter::Exporter;
use crate::loaded_fonts::LoadedFonts;
use crate::midi_event::MidiEvent;
use crate::midi_event_queue::{MidiEventQueue, TimedEvent};
use crate::music::{tracks_of, MidiTrack, Music};
use crate::play_state::{PlaySignal, PlayState};
use crate::schedule::{
    enqueue_track_events, note_off_events, note_off_of, note_on_events, note_on_of, silencing,
    silencing_events, tracks_events, Struck,
};
use crate::soundfont_banks::{BankCatalog, SoundFontBanks};
use crate::state::State;
use crate::synth::{channel_preset, font_presets, preset_name, program_select};
use crate::synth_state::{Program, ProgramView, SynthState, SynthStateView};
use vstd::prelude::*;

verus! {

/// A bank file that was loaded: its path, its handle and its catalog.
pub struct LoadedFont {
    /// The path of the file.
    pub path: String,
    /// The handle and the catalog.
    pub banks: SoundFontBanks,
}

impl View for LoadedFont {
    type V = FontView;

    open spec fn view(&self) -> FontView {
        FontView { path: self.path@, catalog: self.banks.banks@ }
    }
}

/// The sound that is left after the music of an exported file is appended for
/// at most this many seconds.
pub const MAX_DECAY_SECONDS: u64 = 10;

/// The connection to the synthesizer: it gives the channels their programs,
/// says which events the synthesizer is to be handed and when, and keeps a
/// record of what the synthesizer was told.
pub struct Conn {
    export_state: ExportState,
    framerate: u32,
    midi_event_queue: MidiEventQueue,
    soundfonts: LoadedFonts,
    state: SynthState,
    play_state: PlayState,
    export_queue: Vec<ExportSession>,
}

impl View for Conn {
    type V = ConnView;

    closed spec fn view(&self) -> ConnView {
        ConnView {
            export_state: self.export_state,
            framerate: self.framerate,
            queue: self.midi_event_queue@,
            fonts: self.soundfonts@,
            state: self.state@,
            play_state: self.play_state,
            pending: session_views(self.export_queue@),
        }
    }
}

impl Conn {
    /// A connection at rest: nothing is loaded, no channel has a program,
    /// nothing is scheduled. Live playback runs at `framerate` samples per
    /// second.
    pub fn new(framerate: u32) -> (conn: Conn)
        ensures
            conn@.wf(),
            conn@.export_state == ExportState::NotExporting,
            conn@.framerate == framerate,
            conn@.queue == Seq::<TimedEvent>::empty(),
            conn@.fonts == Seq::<FontView>::empty(),
            conn@.state.programs == Map::<u8, ProgramView>::empty(),
            conn@.play_state == PlayState::NotPlaying,
            conn@.pending == Seq::<SessionView>::empty(),
    {
        let conn = Conn {
            export_state: ExportState::NotExporting,
            framerate,
            midi_event_queue: MidiEventQueue::new(),
            soundfonts: LoadedFonts::new(),
            state: SynthState::new(),
            play_state: PlayState::NotPlaying,
            export_queue: Vec::new(),
        };
        proof {
            assert(conn@.fonts =~= Seq::<FontView>::empty());
            assert(conn@.pending =~= Seq::<SessionView>::empty());
        }
        conn
    }

    /// The record of what the synthesizer was told.
    pub fn state(&self) -> (state: &SynthState)
        ensures
            state@ == self@.state,
    {
        &self.state
    }

    /// The phase of live playback.
    pub fn play_state(&self) -> (play_state: PlayState)
        ensures
            play_state == self@.play_state,
    {
        self.play_state
    }

    /// The phase of the export that is under way, if one is.
    pub fn export_state(&self) -> (export_state: ExportState)
        ensures
            export_state == self@.export_state,
    {
        self.export_state
    }

    /// The frame rate of live playback, in samples per second.
    pub fn framerate(&self) -> (framerate: u32)
        ensures
            framerate == self@.framerate,
    {
        self.framerate
    }

    /// The number of events that are scheduled for live playback.
    pub fn num_events(&self) -> (n: usize)
        ensures
            n == self@.queue.len(),
    {
        self.midi_event_queue.len()
    }

    /// The scheduled event at position `index`.
    pub fn get_event(&self, index: usize) -> (event: Option<TimedEvent>)
        ensures
            index < self@.queue.len() ==> event == Some(self@.queue[index as int]),
            index >= self@.queue.len() ==> event.is_none(),
    {
        self.midi_event_queue.get(index)
    }

    /// Whether an export is under way.
    pub fn exporting(&self) -> (exporting: bool)
        ensures
            exporting == (self@.export_state != ExportState::NotExporting),
    {
        match self.export_state {
            ExportState::NotExporting => false,
            _ => true,
        }
    }

    /// The place of the first file with this path among the loaded files.
    pub fn find_font(&self, path: &String) -> (place: Option<usize>)
        ensures
            match place {
                Some(i) => i < self@.fonts.len() && self@.fonts[i as int].path == path@,
                None => forall|i: int| 0 <= i < self@.fonts.len() ==> self@.fonts[i].path != path@,
            },
            place matches Some(i) ==> i == self@.place_of(path@),
    {
        let place = self.soundfonts.find(path);
        proof {
            match place {
                Some(i) => {
                    assert(self@.is_first_place(path@, i as int));
                },
                None => {},
            }
        }
        place
    }

    /// Whether the file with this path is loaded.
    pub fn is_loaded(&self, path: &String) -> (loaded: bool)
        ensures
            loaded == exists|i: int| 0 <= i < self@.fonts.len() && self@.fonts[i].path == path@,
    {
        self.find_font(path).is_some()
    }

    /// The catalog of the loaded file at position `font`.
    pub fn get_catalog(&self, font: usize) -> (catalog: Option<&BankCatalog>)
        ensures
            match catalog {
                Some(c) => font < self@.fonts.len() && c@ == self@.fonts[font as int].catalog,
                None => font >= self@.fonts.len(),
            },
    {
        if font < self.soundfonts.len() {
            Some(&self.soundfonts.get(font).banks.banks)
        } else {
            None
        }
    }

    /// Takes the bank file `font`, read from `path`, for `channel`.
    ///
    /// A file that is loaded already is not loaded again. Else the file is
    /// listed and handed to the synthesizer. Either way the synthesizer is
    /// asked to give `channel` the lowest preset of the lowest bank of the
    /// file, and the program is recorded where it does. After a new file the
    /// synthesizer is told again the programs of the other files; their record
    /// does not change.
    pub fn load_soundfont(
        &mut self,
        synth: &mut oxisynth::Synth,
        channel: u8,
        path: String,
        font: oxisynth::SoundFont,
    ) -> (recorded: bool)
        requires
            old(self)@.wf(),
        ensures
            final(self)@.wf(),
            old(self)@.loaded(path@, font_presets(font)).wf(),
            !recorded ==> final(self)@ == old(self)@.loaded(path@, font_presets(font)),
            recorded ==> old(self)@.loaded(path@, font_presets(font)).has_selected_default(
                final(self)@,
                channel,
                old(self)@.place_of(path@),
            ),
    {
        let mut fresh = false;
        let place = match self.find_font(&path) {
            Some(place) => place,
            None => {
                fresh = true;
                let banks = SoundFontBanks::new(font, synth);
                let loaded = LoadedFont { path, banks };
                let mut fonts = LoadedFonts::new();
                std::mem::swap(&mut fonts, &mut self.soundfonts);
                fonts = fonts.add(loaded);
                std::mem::swap(&mut fonts, &mut self.soundfonts);
                proof {
                    assert forall|c: u8| #[trigger]
                        self@.state.programs.contains_key(c) implies is_loaded_program(
                        self@.fonts,
                        self@.state.programs[c],
                    ) by {
                        let k = choose|k: int|
                            0 <= k < old(self)@.fonts.len() && (#[trigger] old(self)@.fonts[k]).path
                                == self@.state.programs[c].path && is_program_of(
                                old(self)@.fonts[k].catalog,
                                self@.state.programs[c],
                            );
                        assert(self@.fonts[k] == old(self)@.fonts[k]);
                    }
                }
                self.soundfonts.len() - 1
            },
        };
        proof {
            let p = old(self)@.place_of(path@);
            if p < old(self)@.fonts.len() {
                assert(old(self)@.fonts[p].path == path@);
            }
            assert(self@.fonts[place as int].path == path@);
            assert(self@ == old(self)@.loaded(path@, font_presets(font)));
        }
        let recorded = self.set_program_default(synth, channel, place);
        if fresh {
            self.restore_programs(synth, place);
        }
        recorded
    }

    /// Tells the synthesizer again the programs that `programs_to_restore`
    /// lists for the loaded file at position `except`, in their order. The
    /// record does not change.
    fn restore_programs(&self, synth: &mut oxisynth::Synth, except: usize) {
        let programs = self.programs_to_restore(except);
        let n: usize = programs.len();
        let mut i: usize = 0;
        while i < n
            invariant
                n == programs.len(),
                i <= n,
                forall|k: int|
                    0 <= k < programs.len() ==> (#[trigger] programs[k]).font
                        < self.soundfonts@.len(),
            decreases n - i,
        {
            let program = programs[i];
            // The synthesizer is asked by the handle that it gave the file
            // when the file was loaded.
            //
            // Its answer is passed over: the record says what each channel
            // was given, and a refusal now takes nothing of that back.
            let _ = program_select(
                synth,
                program.channel,
                self.soundfonts.get(program.font).banks.id,
                program.bank,
                program.preset,
            );
            i += 1;
        }
    }

    /// Records that the synthesizer has given `channel` the preset `preset` of
    /// bank `bank` of the loaded file at position `font`, and reports the name
    /// of the preset as `name`. Nothing is recorded without a name, for a file
    /// that is not loaded, or for a preset that the file does not have: the
    /// record is then as it was.
    pub fn record_program(
        &mut self,
        channel: u8,
        font: usize,
        bank: u32,
        preset: u8,
        name: Option<String>,
    ) -> (recorded: bool)
        requires
            old(self)@.wf(),
        ensures
            final(self)@.wf(),
            recorded == (name.is_some() && old(self)@.has_preset(font as int, bank, preset)),
            !recorded ==> final(self)@ == old(self)@,
            recorded ==> {
                let program = final(self)@.state.programs[channel];
                &&& final(self)@ == (ConnView {
                    state: SynthStateView {
                        programs: old(self)@.state.programs.insert(channel, program),
                        ..old(self)@.state
                    },
                    ..old(self)@
                })
                &&& program.path == old(self)@.fonts[font as int].path
                &&& program.bank == bank
                &&& program.preset == preset
                &&& program.preset_name == name.unwrap()@
                &&& is_program_of(old(self)@.fonts[font as int].catalog, program)
            },
    {
        let name = match name {
            Some(name) => name,
            None => {
                return false;
            },
        };
        if font >= self.soundfonts.len() {
            return false;
        }
        let position = match self.soundfonts.get(font).banks.banks.locate(bank, preset) {
            Some(position) => position,
            None => {
                return false;
            },
        };
        let program = Program {
            path: self.soundfonts.get(font).path.clone(),
            num_banks: position.num_banks,
            bank_index: position.bank_index,
            bank,
            num_presets: position.num_presets,
            preset_index: position.preset_index,
            preset_name: name,
            preset,
        };
        let ghost view = program@;
        proof {
            assert(is_program_of(self@.fonts[font as int].catalog, view));
        }
        self.state.set_program(channel, program);
        proof {
            assert forall|c: u8| #[trigger] self@.state.programs.contains_key(c) implies is_loaded_program(
                self@.fonts,
                self@.state.programs[c],
            ) by {
                if c == channel {
                    assert(self@.fonts[font as int].path == view.path);
                } else {
                    assert(old(self)@.state.programs.contains_key(c));
                }
            }
        }
        true
    }

    /// Asks the synthesizer to give `channel` the preset `preset` of bank
    /// `bank` of the loaded file at position `font`, if the catalog of the
    /// file has that preset. Where the synthesizer does, the program is
    /// recorded, with the name that the synthesizer reports; where it is not
    /// asked or does not, the record is as it was.
    pub fn set_program(
        &mut self,
        synth: &mut oxisynth::Synth,
        channel: u8,
        font: usize,
        bank: u32,
        preset: u8,
    ) -> (recorded: bool)
        requires
            old(self)@.wf(),
        ensures
            final(self)@.wf(),
            !recorded ==> final(self)@ == old(self)@,
            recorded ==> old(self)@.has_selected(final(self)@, channel, font as int, bank, preset),
    {
        if font >= self.soundfonts.len() {
            return false;
        }
        if self.soundfonts.get(font).banks.banks.locate(bank, preset).is_none() {
            return false;
        }
        let id = self.soundfonts.get(font).banks.id;
        let name = if program_select(synth, channel, id, bank, preset).is_ok() {
            match channel_preset(synth, channel) {
                Some(preset) => Some(preset_name(preset)),
                None => None,
            }
        } else {
            None
        };
        self.record_program(channel, font, bank, preset, name)
    }

    /// Asks the synthesizer to give `channel` the lowest preset of the lowest
    /// bank of the loaded file at position `font`, and records the program
    /// where the synthesizer does.
    pub fn set_program_default(
        &mut self,
        synth: &mut oxisynth::Synth,
        channel: u8,
        font: usize,
    ) -> (recorded: bool)
        requires
            old(self)@.wf(),
        ensures
            final(self)@.wf(),
            !recorded ==> final(self)@ == old(self)@,
            recorded ==> old(self)@.has_selected_default(final(self)@, channel, font as int),
    {
        let default = match self.get_catalog(font) {
            Some(catalog) => catalog.default_program(),
            None => None,
        };
        match default {
            Some((bank, preset)) => {
                let recorded = self.set_program(synth, channel, font, bank, preset);
                recorded
            },
            None => false,
        }
    }

    /// Forgets the program of `channel`.
    pub fn unset_program(&mut self, channel: u8)
        ensures
            final(self)@ == (ConnView {
                state: SynthStateView {
                    programs: old(self)@.state.programs.remove(channel),
                    ..old(self)@.state
                },
                ..old(self)@
            }),
            old(self)@.wf() ==> final(self)@.wf(),
    {
        self.state.unset_program(channel);
        proof {
            if old(self)@.wf() {
                assert forall|c: u8| #[trigger] self@.state.programs.contains_key(c) implies is_loaded_program(
                    self@.fonts,
                    self@.state.programs[c],
                ) by {
                    assert(old(self)@.state.programs.contains_key(c));
                }
            }
        }
    }

    /// Records the master gain.
    pub fn set_gain(&mut self, gain: u8)
        ensures
            final(self)@ == (ConnView {
                state: SynthStateView { gain, ..old(self)@.state },
                ..old(self)@
            }),
    {
        self.state.set_gain(gain);
    }

    /// Plays the keys that were struck on the selected track: returns, for
    /// the synthesizer, a note-on for each on the channel of the track, in
    /// their order, with the velocity scaled by the gain of the track, and
    /// lets the sound be heard: playback is left fading. Without a selected
    /// track or a key, nothing happens and nothing is returned.
    pub fn note_ons(&mut self, state: &State, note_ons: &[Struck]) -> (events: Vec<MidiEvent>)
        ensures
            final(self)@ == (ConnView {
                play_state: if state.music.spec_selected_track().is_some() && note_ons@.len() > 0 {
                    PlayState::Decaying
                } else {
                    old(self)@.play_state
                },
                ..old(self)@
            }),
            events@ == match state.music.spec_selected_track() {
                Some(track) => note_ons@.map_values(note_on_of(track.channel, track.gain)),
                None => Seq::<MidiEvent>::empty(),
            },
    {
        match state.music.get_selected_track() {
            Some(track) => {
                if note_ons.len() > 0 {
                    self.play_state = PlayState::Decaying;
                }
                note_on_events(track.channel, track.gain, note_ons)
            },
            None => Vec::new(),
        }
    }

    /// Releases the keys that were released on the selected track: returns,
    /// for the synthesizer, a note-off for each on the channel of the track,
    /// in their order. Without a selected track nothing is returned. The
    /// record is left as it is.
    pub fn note_offs(&mut self, state: &State, note_offs: &[u8]) -> (events: Vec<MidiEvent>)
        ensures
            final(self)@ == old(self)@,
            events@ == match state.music.spec_selected_track() {
                Some(track) => note_offs@.map_values(note_off_of(track.channel)),
                None => Seq::<MidiEvent>::empty(),
            },
    {
        match state.music.get_selected_track() {
            Some(track) => note_off_events(track.channel, note_offs),
            None => Vec::new(),
        }
    }

    /// Starts the music where it is at rest, and stops it where it is not.
    /// Returns the events that stop it, for the synthesizer.
    pub fn set_music(&mut self, state: &State) -> (events: Vec<MidiEvent>)
        ensures
            old(self)@.play_state == PlayState::NotPlaying ==> final(self)@ == old(self)@.started(
                *state,
            ) && events@.len() == 0,
            old(self)@.play_state != PlayState::NotPlaying ==> final(self)@ == (ConnView {
                play_state: PlayState::Decaying,
                ..old(self)@
            }) && events@ == silencing(state.music.midi_tracks@),
    {
        match self.play_state {
            PlayState::NotPlaying => {
                self.start_music(state);
                Vec::new()
            },
            _ => self.stop_music(&state.music),
        }
    }

    /// Schedules the notes of the tracks that are played, from the start of
    /// playback on, puts the scheduled events in order and starts to play.
    pub fn start_music(&mut self, state: &State)
        ensures
            final(self)@ == old(self)@.started(*state),
    {
        self.start_music_from(state, state.time.playback());
    }

    /// Schedules the notes of the tracks that are played, from the pulse
    /// `pulse` on, puts the scheduled events in order and starts to play.
    pub fn start_music_from(&mut self, state: &State, pulse: u64)
        ensures
            final(self)@ == old(self)@.started_from(*state, pulse),
    {
        let start = state.time.ppq_to_samples(pulse, self.framerate);
        let tracks = state.music.get_playable_tracks();
        let ghost before = self.midi_event_queue@;
        let ghost played = tracks_of(tracks@);
        let n: usize = tracks.len();
        let mut i: usize = 0;
        let mut end: u64 = 0;
        proof {
            assert(played.subrange(0, 0) =~= Seq::<MidiTrack>::empty());
            assert(self.midi_event_queue@ =~= before + Seq::<TimedEvent>::empty());
        }
        while i < n
            invariant
                n == tracks.len(),
                i <= n,
                played == tracks_of(tracks@),
                self.export_state == old(self).export_state,
                self.framerate == old(self).framerate,
                self.soundfonts == old(self).soundfonts,
                self.state == old(self).state,
                self.play_state == old(self).play_state,
                self.export_queue == old(self).export_queue,
                self.midi_event_queue@ == before + tracks_events(
                    played.subrange(0, i as int),
                    pulse,
                    state.time.spec_bpm(),
                    self.framerate,
                ),
            decreases n - i,
        {
            proof {
                assert(played.subrange(0, i + 1).drop_last() =~= played.subrange(0, i as int));
                assert(played.subrange(0, i + 1).last() == *tracks@[i as int]);
            }
            enqueue_track_events(
                tracks[i],
                &state.time,
                self.framerate,
                pulse,
                &mut self.midi_event_queue,
                &mut end,
            );
            proof {
                assert(self.midi_event_queue@ =~= before + tracks_events(
                    played.subrange(0, i + 1),
                    pulse,
                    state.time.spec_bpm(),
                    self.framerate,
                ));
            }
            i += 1;
        }
        proof {
            assert(played.subrange(0, n as int) =~= played);
        }
        self.midi_event_queue.sort();
        self.play_state = PlayState::Playing(start);
    }

    /// Stops the music: returns, for the synthesizer, what silences the
    /// channel of every track, track by track, and leaves playback fading.
    /// What is scheduled stays scheduled.
    pub fn stop_music(&mut self, music: &Music) -> (events: Vec<MidiEvent>)
        ensures
            final(self)@ == (ConnView { play_state: PlayState::Decaying, ..old(self)@ }),
            events@ == silencing(music.midi_tracks@),
    {
        self.play_state = PlayState::Decaying;
        silencing_events(&music.midi_tracks)
    }

    /// One sample of live playback. While the music plays, the events that
    /// are due at the sample leave the queue and are returned, for the
    /// synthesizer, and playback moves to the next sample, or is left fading
    /// once nothing is scheduled. Says whether the synthesizer is to be heard
    /// for this sample, after it was handed the events.
    pub fn tick(&mut self) -> (heard: (bool, Vec<MidiEvent>))
        ensures
            heard.0 == (old(self)@.play_state != PlayState::NotPlaying),
            heard.1@ == old(self)@.due(),
            final(self)@ == old(self)@.ticked(),
    {
        match self.play_state {
            PlayState::NotPlaying => (false, Vec::new()),
            PlayState::Decaying => (true, Vec::new()),
            PlayState::Playing(time) => {
                let events = self.midi_event_queue.dequeue(time);
                if self.midi_event_queue.is_empty() {
                    self.play_state = self.play_state.next(PlaySignal::EndOfEvents);
                } else {
                    self.play_state = self.play_state.next(PlaySignal::Advance);
                }
                (true, events)
            },
        }
    }

    /// Records that the sound has faded: fading playback comes to rest.
    pub fn decayed(&mut self)
        ensures
            final(self)@ == (ConnView {
                play_state: old(self)@.play_state.spec_next(PlaySignal::Decayed),
                ..old(self)@
            }),
    {
        self.play_state = self.play_state.next(PlaySignal::Decayed);
    }

    /// Prepares an export of the music of `state` to `path` with the settings
    /// `exporter`, and puts it behind the exports that wait for their turn. The
    /// export keeps a copy of the settings. A MIDI file is not rendered:
    /// for that format nothing is prepared.
    pub fn start_export(&mut self, state: &State, path: String, exporter: &Exporter)
        ensures
            exporter.get_export_type() == ExportType::Mid ==> final(self)@ == old(self)@,
            exporter.get_export_type() != ExportType::Mid ==> {
                &&& final(self)@.pending.len() == old(self)@.pending.len() + 1
                &&& final(self)@ == (ConnView {
                    pending: old(self)@.pending.push(final(self)@.pending.last()),
                    ..old(self)@
                })
                &&& old(self)@.is_new_session(final(self)@.pending.last(), *state, path@, *exporter)
            },
    {
        if !exporter.get_export_type().is_audio() {
            return ;
        }
        let files = get_exportables(
            &state.music,
            &state.time,
            exporter.framerate,
            exporter.multi_file,
            exporter.multi_file_suffix,
            &self.state,
        );
        assert(exporter.framerate as u64 * MAX_DECAY_SECONDS <= 0xffff_ffff * 10) by (nonlinear_arith)
            requires
                exporter.framerate <= 0xffff_ffff,
                MAX_DECAY_SECONDS == 10,
        ;
        let limit: u64 = exporter.framerate as u64 * MAX_DECAY_SECONDS;
        let session = ExportSession::new(path, files, exporter.duplicate(), limit);
        let ghost before = self.export_queue@;
        let ghost view = session@;
        self.export_queue.push(session);
        proof {
            assert(session_views(self.export_queue@) =~= session_views(before).push(view));
        }
    }

    /// Hands out the export whose turn it is, if no export is under way and
    /// one waits, and records that it is under way. While an export is under
    /// way nothing is handed out and nothing changes.
    pub fn poll_export(&mut self) -> (session: Option<ExportSession>)
        ensures
            (old(self)@.export_state != ExportState::NotExporting || old(self)@.pending.len() == 0)
                ==> session.is_none() && final(self)@ == old(self)@,
            (old(self)@.export_state == ExportState::NotExporting && old(self)@.pending.len() > 0)
                ==> {
                &&& session matches Some(s)
                &&& s@ == old(self)@.pending[0]
                &&& final(self)@ == (ConnView {
                    pending: old(self)@.pending.subrange(1, old(self)@.pending.len() as int),
                    export_state: if s@.files.len() > 0 {
                        ExportState::WritingWav {
                            total_samples: s@.files[0].total_samples,
                            exported_samples: 0,
                        }
                    } else {
                        ExportState::Done
                    },
                    ..old(self)@
                })
                &&& final(self)@.export_state != ExportState::NotExporting
            },
    {
        if self.exporting() || self.export_queue.len() == 0 {
            return None;
        }
        let ghost before = self.export_queue@;
        let session = self.export_queue.remove(0);
        self.export_state = match session.total_samples(0) {
            Some(total_samples) => ExportState::WritingWav { total_samples, exported_samples: 0 },
            None => ExportState::Done,
        };
        proof {
            assert(session_views(self.export_queue@) =~= session_views(before).subrange(
                1,
                before.len() as int,
            ));
        }
        Some(session)
    }

    /// Records how far the export that is under way has come.
    pub fn set_export_state(&mut self, export_state: ExportState)
        ensures
            final(self)@ == (ConnView { export_state, ..old(self)@ }),
    {
        self.export_state = export_state;
    }

    /// Does what the connection can do of `command`, and says what is left
    /// to do, with the events that are then to be handed to the synthesizer.
    pub fn do_command(
        &mut self,
        synth: &mut oxisynth::Synth,
        state: &State,
        command: &Command,
    ) -> (left: (Outcome, Vec<MidiEvent>))
        requires
            old(self)@.wf(),
        ensures
            final(self)@.wf(),
            old(self)@.may_become(*state, *command, final(self)@, left.0),
            left.1@ == old(self)@.events_of_command(*state, *command),
    {
        match command {
            Command::LoadSoundFont { channel, path } => {
                match self.find_font(path) {
                    Some(place) => {
                        proof {
                            let p = self@.place_of(path@);
                            assert(self@.fonts[p].path == path@);
                        }
                        let _ = self.set_program_default(synth, *channel, place);
                        (Outcome::Done, Vec::new())
                    },
                    None => (Outcome::LoadFont, Vec::new()),
                }
            },
            Command::SetProgram { channel, path, bank_index, preset_index } => {
                match self.find_font(path) {
                    Some(place) => {
                        proof {
                            let p = self@.place_of(path@);
                            assert(self@.fonts[p].path == path@);
                        }
                        match self.soundfonts.get(place).banks.banks.program_at(*bank_index, *preset_index) {
                            Some((bank, preset)) => {
                                let _ = self.set_program(synth, *channel, place, bank, preset);
                            },
                            None => {},
                        }
                    },
                    None => {},
                }
                (Outcome::Done, Vec::new())
            },
            Command::UnsetProgram { channel } => {
                self.unset_program(*channel);
                (Outcome::Done, Vec::new())
            },
            Command::SetGain { gain } => {
                self.set_gain(*gain);
                (Outcome::ApplyGain, Vec::new())
            },
            Command::NoteOn { channel, key, velocity } => {
                let mut events: Vec<MidiEvent> = Vec::new();
                events.push(MidiEvent::NoteOn { channel: *channel, key: *key, vel: *velocity });
                self.play_state = PlayState::Decaying;
                proof {
                    assert(self@ == (ConnView { play_state: PlayState::Decaying, ..old(self)@ }));
                    assert(events@ =~= old(self)@.events_of_command(*state, *command));
                }
                (Outcome::Send, events)
            },
            Command::NoteOff { channel, key } => {
                let mut events: Vec<MidiEvent> = Vec::new();
                events.push(MidiEvent::NoteOff { channel: *channel, key: *key });
                proof {
                    assert(events@ =~= old(self)@.events_of_command(*state, *command));
                }
                (Outcome::Send, events)
            },
            Command::PlayFrom { time } => {
                match self.play_state {
                    PlayState::NotPlaying => self.start_music_from(state, *time),
                    _ => {},
                }
                (Outcome::Done, Vec::new())
            },
            Command::Stop => {
                match self.play_state {
                    PlayState::NotPlaying => (Outcome::Done, Vec::new()),
                    _ => (Outcome::Send, self.stop_music(&state.music)),
                }
            },
            Command::Export { path, settings } => {
                self.start_export(state, path.clone(), settings);
                (Outcome::Done, Vec::new())
            },
        }
    }

    /// Does the commands of `commands` from the place `start` on, in their
    /// order, up to the first that leaves something to do, and says which that
    /// is and what is left to do for it, with the events that are then to be
    /// handed to the synthesizer. Whoever calls does that and goes on behind
    /// that command.
    pub fn do_commands(
        &mut self,
        synth: &mut oxisynth::Synth,
        state: &State,
        commands: &Vec<Command>,
        start: usize,
    ) -> (stopped: (usize, Outcome, Vec<MidiEvent>))
        requires
            old(self)@.wf(),
            start <= commands@.len(),
        ensures
            final(self)@.wf(),
            start <= stopped.0 <= commands@.len(),
            stopped.1 == Outcome::Done ==> stopped.0 == commands@.len() && stopped.2@.len() == 0
                && old(self)@.may_run(
                *state,
                commands@.subrange(start as int, stopped.0 as int),
                final(self)@,
            ),
            stopped.1 != Outcome::Done ==> stopped.0 < commands@.len() && exists|mid: ConnView|
                #![trigger mid.may_become(*state, commands@[stopped.0 as int], final(self)@, stopped.1)]
                old(self)@.may_run(*state, commands@.subrange(start as int, stopped.0 as int), mid)
                    && mid.may_become(*state, commands@[stopped.0 as int], final(self)@, stopped.1)
                    && stopped.2@ == mid.events_of_command(*state, commands@[stopped.0 as int]),
    {
        let n: usize = commands.len();
        let mut i: usize = start;
        proof {
            assert(commands@.subrange(start as int, start as int) =~= Seq::<Command>::empty());
        }
        while i < n
            invariant
                n == commands.len(),
                start <= i <= n,
                self@.wf(),
                old(self)@.may_run(*state, commands@.subrange(start as int, i as int), self@),
            decreases n - i,
        {
            let ghost mid = self@;
            let (outcome, events) = self.do_command(synth, state, &commands[i]);
            match outcome {
                Outcome::Done => {
                    proof {
                        let run = commands@.subrange(start as int, i + 1);
                        assert(run.drop_last() =~= commands@.subrange(start as int, i as int));
                        assert(run.last() == commands@[i as int]);
                        lemma_run_step(old(self)@, *state, run, mid, self@);
                    }
                },
                _ => {
                    return (i, outcome, events);
                },
            }
            i += 1;
        }
        (n, Outcome::Done, Vec::new())
    }

    /// The programs that the synthesizer is told again after the file at
    /// position `except` was loaded: for each channel that has a program of
    /// another loaded file, in ascending order of the channels, the channel,
    /// the position of the file, the bank and the preset.
    pub fn programs_to_restore(&self, except: usize) -> (programs: Vec<crate::conn_view::Restored>)
        ensures
            programs@ == self@.restored(except as int, 256),
            forall|k: int|
                0 <= k < programs@.len() ==> (#[trigger] programs@[k]).font < self@.fonts.len(),
    {
        let mut programs: Vec<crate::conn_view::Restored> = Vec::new();
        let mut channel: u16 = 0;
        while channel < 256
            invariant
                channel <= 256,
                programs@ == self@.restored(except as int, channel as nat),
                forall|k: int|
                    0 <= k < programs@.len() ==> (#[trigger] programs@[k]).font < self@.fonts.len(),
            decreases 256 - channel,
        {
            match self.state.get_program(channel as u8) {
                Some(program) => {
                    match self.find_font(&program.path) {
                        Some(place) => {
                            if place != except {
                                programs.push(
                                    crate::conn_view::Restored {
                                        channel: channel as u8,
                                        font: place,
                                        bank: program.bank,
                                        preset: program.preset,
                                    },
                                );
                            }
                        },
                        None => {},
                    }
                },
                None => {},
            }
            channel += 1;
        }
        programs
    }
}

} // verus!

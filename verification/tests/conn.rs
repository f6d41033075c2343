use cacophony_audio::command::{Command, Outcome};
use cacophony_audio::conn::{Conn, LoadedFont};
use cacophony_audio::conn_view::Restored;
use cacophony_audio::export::{ExportState, ExportType, MultiFileSuffix};
use cacophony_audio::export_session::{get_exportables, ExportSession, ExportStep};
use cacophony_audio::exporter::Exporter;
use cacophony_audio::index::Index;
use cacophony_audio::loaded_fonts::LoadedFonts;
use cacophony_audio::midi_event::MidiEvent;
use cacophony_audio::midi_event_queue::TimedEvent;
use cacophony_audio::music::{MidiTrack, Music, Note};
use cacophony_audio::play_state::PlayState;
use cacophony_audio::soundfont_banks::SoundFontBanks;
use cacophony_audio::state::{InputState, PianoRollMode, SelectMode, State};
use cacophony_audio::synth_state::SynthState;
use cacophony_audio::time::{ppq_to_samples, Time};

fn chunk(id: &str, data: &[u8]) -> Vec<u8> {
    let mut bytes = id.as_bytes().to_vec();
    bytes.extend_from_slice(&(data.len() as u32).to_le_bytes());
    bytes.extend_from_slice(data);
    if data.len() % 2 == 1 {
        bytes.push(0);
    }
    bytes
}

fn list(kind: &str, chunks: &[Vec<u8>]) -> Vec<u8> {
    let mut data = kind.as_bytes().to_vec();
    for c in chunks {
        data.extend_from_slice(c);
    }
    data
}

fn name20(name: &str) -> Vec<u8> {
    let mut bytes = name.as_bytes().to_vec();
    bytes.resize(20, 0);
    bytes
}

/// The bytes of a small bank file: one looped square wave, one instrument,
/// and a preset for each of `presets` (bank, preset, name).
fn bank_file(presets: &[(u16, u16, &str)]) -> Vec<u8> {
    let mut ifil = vec![];
    ifil.extend_from_slice(&2u16.to_le_bytes());
    ifil.extend_from_slice(&1u16.to_le_bytes());
    let info = list("INFO", &[chunk("ifil", &ifil), chunk("INAM", b"bank\0\0")]);

    let mut smpl = vec![];
    for i in 0..256u32 {
        let value: i16 = if (i / 16) % 2 == 0 { 8000 } else { -8000 };
        smpl.extend_from_slice(&value.to_le_bytes());
    }
    for _ in 0..46 {
        smpl.extend_from_slice(&0i16.to_le_bytes());
    }
    let sdta = list("sdta", &[chunk("smpl", &smpl)]);

    let mut phdr = vec![];
    let mut pbag = vec![];
    let mut pgen = vec![];
    for (i, (bank, preset, name)) in presets.iter().enumerate() {
        phdr.extend_from_slice(&name20(name));
        phdr.extend_from_slice(&preset.to_le_bytes());
        phdr.extend_from_slice(&bank.to_le_bytes());
        phdr.extend_from_slice(&(i as u16).to_le_bytes());
        phdr.extend_from_slice(&[0; 12]);
        pbag.extend_from_slice(&(i as u16).to_le_bytes());
        pbag.extend_from_slice(&0u16.to_le_bytes());
        // The instrument of the preset.
        pgen.extend_from_slice(&41u16.to_le_bytes());
        pgen.extend_from_slice(&0u16.to_le_bytes());
    }
    let n = presets.len() as u16;
    phdr.extend_from_slice(&name20("EOP"));
    phdr.extend_from_slice(&[0; 4]);
    phdr.extend_from_slice(&n.to_le_bytes());
    phdr.extend_from_slice(&[0; 12]);
    pbag.extend_from_slice(&n.to_le_bytes());
    pbag.extend_from_slice(&0u16.to_le_bytes());
    pgen.extend_from_slice(&[0; 4]);

    let mut inst = name20("wave");
    inst.extend_from_slice(&0u16.to_le_bytes());
    inst.extend_from_slice(&name20("EOI"));
    inst.extend_from_slice(&1u16.to_le_bytes());
    let mut ibag = vec![];
    ibag.extend_from_slice(&[0, 0, 0, 0]);
    ibag.extend_from_slice(&2u16.to_le_bytes());
    ibag.extend_from_slice(&0u16.to_le_bytes());
    let mut igen = vec![];
    // The sample loops, and it is the first sample.
    igen.extend_from_slice(&54u16.to_le_bytes());
    igen.extend_from_slice(&1u16.to_le_bytes());
    igen.extend_from_slice(&53u16.to_le_bytes());
    igen.extend_from_slice(&0u16.to_le_bytes());
    igen.extend_from_slice(&[0; 4]);

    let mut shdr = name20("square");
    shdr.extend_from_slice(&0u32.to_le_bytes());
    shdr.extend_from_slice(&256u32.to_le_bytes());
    shdr.extend_from_slice(&32u32.to_le_bytes());
    shdr.extend_from_slice(&224u32.to_le_bytes());
    shdr.extend_from_slice(&44100u32.to_le_bytes());
    shdr.push(60);
    shdr.push(0);
    shdr.extend_from_slice(&0u16.to_le_bytes());
    shdr.extend_from_slice(&1u16.to_le_bytes());
    shdr.extend_from_slice(&name20("EOS"));
    shdr.extend_from_slice(&[0; 26]);

    let pdta = list(
        "pdta",
        &[
            chunk("phdr", &phdr),
            chunk("pbag", &pbag),
            chunk("pmod", &[0; 10]),
            chunk("pgen", &pgen),
            chunk("inst", &inst),
            chunk("ibag", &ibag),
            chunk("imod", &[0; 10]),
            chunk("igen", &igen),
            chunk("shdr", &shdr),
        ],
    );
    let body = list(
        "sfbk",
        &[chunk("LIST", &info), chunk("LIST", &sdta), chunk("LIST", &pdta)],
    );
    chunk("RIFF", &body)
}

fn font(presets: &[(u16, u16, &str)]) -> oxisynth::SoundFont {
    oxisynth::SoundFont::load(&mut std::io::Cursor::new(bank_file(presets))).unwrap()
}

fn some_presets() -> Vec<(u16, u16, &'static str)> {
    vec![(2, 1, "Flute"), (0, 5, "Organ"), (0, 3, "Piano"), (128, 0, "Drums"), (0, 127, "Bell")]
}

fn state_with(tracks: Vec<MidiTrack>, bpm: u64) -> State {
    let mut music = Music::new();
    music.midi_tracks = tracks;
    State {
        music,
        time: Time::new(bpm).unwrap(),
        input: InputState {
            armed: false,
            alphanumeric_input: false,
            can_undo: true,
            beat: 192,
            volume: 127,
            use_volume: true,
        },
        panels: vec![],
        focus: Index::new(0, 0),
        select_mode: SelectMode::Single(None),
        piano_roll_mode: PianoRollMode::Time,
        unsaved_changes: false,
    }
}

fn track_with(channel: u8, notes: Vec<Note>) -> MidiTrack {
    let mut track = MidiTrack::new(channel);
    track.notes = notes;
    track
}

fn note(key: u8, start: u64, end: u64) -> Note {
    Note { note: key, velocity: 100, start, end }
}

fn to_i16(sample: f32) -> i16 {
    (sample * 32767.5).floor() as i16
}

#[test]
fn the_catalog_lists_the_presets_of_a_bank_file() {
    let mut synth = oxisynth::Synth::default();
    let loaded = SoundFontBanks::new(font(&some_presets()), &mut synth);
    assert_eq!(loaded.banks.get_banks(), vec![0, 2, 128]);
    assert_eq!(loaded.banks.get_presets(0), Some(&vec![3, 5, 127]));
    assert_eq!(loaded.banks.get_presets(2), Some(&vec![1]));
    assert_eq!(loaded.banks.get_presets(128), Some(&vec![0]));
    assert_eq!(loaded.banks.get_presets(1), None);
    assert_eq!(loaded.banks.default_program(), Some((0, 3)));
}

#[test]
fn a_catalog_of_a_file_without_presets_is_empty() {
    let mut synth = oxisynth::Synth::default();
    let loaded = SoundFontBanks::new(font(&[]), &mut synth);
    assert_eq!(loaded.banks.get_banks(), Vec::<u32>::new());
    assert_eq!(loaded.banks.default_program(), None);
}

#[test]
fn a_new_connection_is_at_rest() {
    let conn = Conn::new(44100);
    assert_eq!(conn.framerate(), 44100);
    assert_eq!(conn.play_state(), PlayState::NotPlaying);
    assert_eq!(conn.export_state(), ExportState::NotExporting);
    assert!(!conn.exporting());
    assert_eq!(conn.num_events(), 0);
    assert_eq!(conn.state().gain(), 127);
    assert!(conn.state().get_program(0).is_none());
    assert!(!conn.is_loaded(&"a.sf2".to_string()));
    assert!(conn.get_catalog(0).is_none());
}

#[test]
fn loading_a_file_gives_the_channel_its_lowest_preset() {
    let mut synth = oxisynth::Synth::default();
    let mut conn = Conn::new(44100);
    let recorded = conn.load_soundfont(&mut synth, 3, "a.sf2".to_string(), font(&some_presets()));
    assert!(recorded);
    assert!(conn.is_loaded(&"a.sf2".to_string()));
    assert_eq!(conn.find_font(&"a.sf2".to_string()), Some(0));
    let program = conn.state().get_program(3).unwrap();
    assert_eq!(program.path, "a.sf2");
    assert_eq!(program.bank, 0);
    assert_eq!(program.preset, 3);
    assert_eq!(program.preset_name, "Piano");
    assert_eq!(program.bank_index, 0);
    assert_eq!(program.preset_index, 0);
    assert_eq!(program.num_banks, 3);
    assert_eq!(program.num_presets, 3);
    assert!(conn.state().get_program(0).is_none());
    assert_eq!(synth.channel_preset(3).unwrap().name(), "Piano");
}

#[test]
fn a_file_is_not_loaded_twice() {
    let mut synth = oxisynth::Synth::default();
    let mut conn = Conn::new(44100);
    assert!(conn.load_soundfont(&mut synth, 0, "a.sf2".to_string(), font(&some_presets())));
    assert!(conn.load_soundfont(&mut synth, 1, "a.sf2".to_string(), font(&[(7, 7, "Other")])));
    assert_eq!(conn.find_font(&"a.sf2".to_string()), Some(0));
    assert!(conn.get_catalog(1).is_none());
    let program = conn.state().get_program(1).unwrap();
    assert_eq!((program.bank, program.preset), (0, 3));
    assert_eq!(program.preset_name, "Piano");
}

#[test]
fn a_second_file_leaves_the_programs_of_the_first() {
    let mut synth = oxisynth::Synth::default();
    let mut conn = Conn::new(44100);
    assert!(conn.load_soundfont(&mut synth, 0, "a.sf2".to_string(), font(&some_presets())));
    assert!(conn.load_soundfont(&mut synth, 1, "b.sf2".to_string(), font(&[(7, 7, "Other")])));
    assert_eq!(conn.find_font(&"b.sf2".to_string()), Some(1));
    let first = conn.state().get_program(0).unwrap();
    assert_eq!(first.path, "a.sf2");
    assert_eq!(first.preset_name, "Piano");
    let second = conn.state().get_program(1).unwrap();
    assert_eq!(second.path, "b.sf2");
    assert_eq!((second.bank, second.preset), (7, 7));
    assert_eq!(second.preset_name, "Other");
    assert_eq!((second.num_banks, second.num_presets), (1, 1));
    // The synthesizer still plays the first program on the first channel.
    assert_eq!(synth.channel_preset(0).unwrap().name(), "Piano");
    assert_eq!(synth.channel_preset(1).unwrap().name(), "Other");
}

#[test]
fn a_file_without_presets_gives_no_program() {
    let mut synth = oxisynth::Synth::default();
    let mut conn = Conn::new(44100);
    assert!(!conn.load_soundfont(&mut synth, 0, "empty.sf2".to_string(), font(&[])));
    assert!(conn.is_loaded(&"empty.sf2".to_string()));
    assert!(conn.state().get_program(0).is_none());
}

#[test]
fn a_program_is_set_by_the_places_of_bank_and_preset() {
    let mut synth = oxisynth::Synth::default();
    let mut conn = Conn::new(44100);
    let state = state_with(vec![], 120);
    conn.load_soundfont(&mut synth, 0, "a.sf2".to_string(), font(&some_presets()));
    let commands = vec![
        Command::SetProgram { channel: 5, path: "a.sf2".to_string(), bank_index: 0, preset_index: 2 },
        Command::SetProgram { channel: 6, path: "a.sf2".to_string(), bank_index: 2, preset_index: 0 },
        // No such bank, no such preset, no such file: nothing happens.
        Command::SetProgram { channel: 7, path: "a.sf2".to_string(), bank_index: 3, preset_index: 0 },
        Command::SetProgram { channel: 8, path: "a.sf2".to_string(), bank_index: 1, preset_index: 1 },
        Command::SetProgram { channel: 9, path: "b.sf2".to_string(), bank_index: 0, preset_index: 0 },
    ];
    assert_eq!(conn.do_commands(&mut synth, &state, &commands, 0), (5, Outcome::Done, vec![]));
    let program = conn.state().get_program(5).unwrap();
    assert_eq!((program.bank, program.preset), (0, 127));
    assert_eq!((program.bank_index, program.preset_index), (0, 2));
    assert_eq!(program.preset_name, "Bell");
    let program = conn.state().get_program(6).unwrap();
    assert_eq!((program.bank, program.preset), (128, 0));
    assert_eq!((program.bank_index, program.preset_index), (2, 0));
    assert_eq!((program.num_banks, program.num_presets), (3, 1));
    assert_eq!(program.preset_name, "Drums");
    assert!(conn.state().get_program(7).is_none());
    assert!(conn.state().get_program(8).is_none());
    assert!(conn.state().get_program(9).is_none());
}

#[test]
fn a_program_that_the_synthesizer_refuses_is_not_recorded() {
    let mut synth = oxisynth::Synth::default();
    let mut conn = Conn::new(44100);
    conn.load_soundfont(&mut synth, 0, "a.sf2".to_string(), font(&some_presets()));
    // The file has no such preset.
    assert!(!conn.set_program(&mut synth, 1, 0, 0, 4));
    assert!(conn.state().get_program(1).is_none());
    // The synthesizer has no such channel.
    assert!(!conn.set_program(&mut synth, 200, 0, 0, 3));
    assert!(conn.state().get_program(200).is_none());
    // No such file is loaded.
    assert!(!conn.set_program(&mut synth, 1, 1, 0, 3));
    // The program of the first channel is as it was.
    let program = conn.state().get_program(0).unwrap();
    assert_eq!((program.bank, program.preset), (0, 3));
    assert!(conn.set_program(&mut synth, 0, 0, 2, 1));
    let program = conn.state().get_program(0).unwrap();
    assert_eq!((program.bank, program.preset), (2, 1));
    assert_eq!(program.preset_name, "Flute");
    assert!(!conn.set_program(&mut synth, 0, 0, 2, 2));
    let program = conn.state().get_program(0).unwrap();
    assert_eq!((program.bank, program.preset), (2, 1));
}

#[test]
fn nothing_is_recorded_without_a_name() {
    let mut synth = oxisynth::Synth::default();
    let mut conn = Conn::new(44100);
    conn.load_soundfont(&mut synth, 0, "a.sf2".to_string(), font(&some_presets()));
    assert!(!conn.record_program(4, 0, 0, 5, None));
    assert!(conn.state().get_program(4).is_none());
    assert!(!conn.record_program(4, 0, 0, 4, Some("x".to_string())));
    assert!(!conn.record_program(4, 1, 0, 5, Some("x".to_string())));
    assert!(conn.state().get_program(4).is_none());
    assert!(conn.record_program(4, 0, 0, 5, Some("x".to_string())));
    let program = conn.state().get_program(4).unwrap();
    assert_eq!((program.bank, program.preset), (0, 5));
    assert_eq!((program.bank_index, program.preset_index), (0, 1));
    assert_eq!(program.preset_name, "x");
}

#[test]
fn commands_stop_at_a_file_that_is_not_loaded_and_at_a_gain() {
    let mut synth = oxisynth::Synth::default();
    let mut conn = Conn::new(44100);
    let state = state_with(vec![], 120);
    let commands = vec![
        Command::UnsetProgram { channel: 0 },
        Command::SetGain { gain: 64 },
        Command::LoadSoundFont { channel: 2, path: "a.sf2".to_string() },
        Command::SetProgram { channel: 2, path: "a.sf2".to_string(), bank_index: 1, preset_index: 0 },
        Command::UnsetProgram { channel: 9 },
    ];
    assert_eq!(conn.do_commands(&mut synth, &state, &commands, 0), (1, Outcome::ApplyGain, vec![]));
    assert_eq!(conn.state().gain(), 64);
    assert_eq!(conn.do_commands(&mut synth, &state, &commands, 2), (2, Outcome::LoadFont, vec![]));
    assert!(!conn.is_loaded(&"a.sf2".to_string()));
    assert!(conn.load_soundfont(&mut synth, 2, "a.sf2".to_string(), font(&some_presets())));
    assert_eq!(conn.do_commands(&mut synth, &state, &commands, 3), (5, Outcome::Done, vec![]));
    let program = conn.state().get_program(2).unwrap();
    assert_eq!((program.bank, program.preset), (2, 1));
    // Once the file is loaded, the command gives the default program.
    assert_eq!(conn.do_command(&mut synth, &state, &commands[2]), (Outcome::Done, vec![]));
    let program = conn.state().get_program(2).unwrap();
    assert_eq!((program.bank, program.preset), (0, 3));
    assert_eq!(conn.do_commands(&mut synth, &state, &commands, 5), (5, Outcome::Done, vec![]));
}

#[test]
fn a_program_can_be_taken_away() {
    let mut synth = oxisynth::Synth::default();
    let mut conn = Conn::new(44100);
    let state = state_with(vec![], 120);
    conn.load_soundfont(&mut synth, 0, "a.sf2".to_string(), font(&some_presets()));
    assert!(conn.state().get_program(0).is_some());
    assert_eq!(
        conn.do_command(&mut synth, &state, &Command::UnsetProgram { channel: 0 }),
        (Outcome::Done, vec![])
    );
    assert!(conn.state().get_program(0).is_none());
    conn.unset_program(0);
    assert!(conn.state().get_program(0).is_none());
}

#[test]
fn a_struck_key_lets_the_sound_be_heard() {
    let mut synth = oxisynth::Synth::default();
    let mut conn = Conn::new(44100);
    let mut state = state_with(vec![track_with(0, vec![])], 120);
    // Without a selected track nothing happens.
    assert_eq!(conn.note_ons(&state, &[[144, 60, 100]]), vec![]);
    assert_eq!(conn.note_offs(&state, &[60]), vec![]);
    assert_eq!(conn.play_state(), PlayState::NotPlaying);
    state.music.selected = Some(0);
    assert_eq!(conn.note_ons(&state, &[]), vec![]);
    assert_eq!(conn.play_state(), PlayState::NotPlaying);
    assert_eq!(
        conn.note_ons(&state, &[[144, 60, 100], [144, 64, 50]]),
        vec![
            MidiEvent::NoteOn { channel: 0, key: 60, vel: 100 },
            MidiEvent::NoteOn { channel: 0, key: 64, vel: 50 },
        ]
    );
    assert_eq!(conn.play_state(), PlayState::Decaying);
    assert_eq!(
        conn.note_offs(&state, &[60, 64]),
        vec![MidiEvent::NoteOff { channel: 0, key: 60 }, MidiEvent::NoteOff { channel: 0, key: 64 }]
    );
    assert_eq!(conn.play_state(), PlayState::Decaying);
    conn.decayed();
    assert_eq!(conn.play_state(), PlayState::NotPlaying);
    assert_eq!(
        conn.do_command(&mut synth, &state, &Command::NoteOn { channel: 0, key: 60, velocity: 9 }),
        (Outcome::Send, vec![MidiEvent::NoteOn { channel: 0, key: 60, vel: 9 }])
    );
    assert_eq!(conn.play_state(), PlayState::Decaying);
    assert_eq!(
        conn.do_command(&mut synth, &state, &Command::NoteOff { channel: 0, key: 60 }),
        (Outcome::Send, vec![MidiEvent::NoteOff { channel: 0, key: 60 }])
    );
    assert_eq!(conn.play_state(), PlayState::Decaying);
    // The velocity of a struck key is scaled by the gain of the track.
    state.music.midi_tracks[0].gain = 64;
    state.music.midi_tracks[0].channel = 5;
    assert_eq!(
        conn.note_ons(&state, &[[144, 60, 100]]),
        vec![MidiEvent::NoteOn { channel: 5, key: 60, vel: 50 }]
    );
}

#[test]
fn a_struck_key_sounds_on_a_channel_with_a_program() {
    let mut synth = oxisynth::Synth::default();
    let mut conn = Conn::new(44100);
    let mut state = state_with(vec![track_with(0, vec![])], 120);
    state.music.selected = Some(0);
    conn.load_soundfont(&mut synth, 0, "a.sf2".to_string(), font(&some_presets()));
    let events = conn.note_ons(&state, &[[144, 60, 100]]);
    send(&mut synth, &events);
    let mut loud = false;
    for _ in 0..4000 {
        let (left, right) = synth.read_next();
        if to_i16(left).abs() > 1 || to_i16(right).abs() > 1 {
            loud = true;
        }
    }
    assert!(loud);
}

#[test]
fn play_then_stop_goes_from_rest_to_playing_to_fading() {
    let mut synth = oxisynth::Synth::default();
    let mut conn = Conn::new(44100);
    let mut state = state_with(
        vec![track_with(0, vec![note(60, 0, 96), note(62, 192, 288), note(64, 384, 480)])],
        60,
    );
    state.time.set_playback(192);
    assert_eq!(conn.play_state(), PlayState::NotPlaying);
    assert_eq!(conn.set_music(&state), vec![]);
    assert_eq!(conn.play_state(), PlayState::Playing(44100));
    assert_eq!(conn.num_events(), 4);
    assert_eq!(
        conn.set_music(&state),
        vec![MidiEvent::AllNotesOff { channel: 0 }, MidiEvent::AllSoundOff { channel: 0 }]
    );
    assert_eq!(conn.play_state(), PlayState::Decaying);
    // What is scheduled is not due before the start of playback.
    assert_eq!(conn.num_events(), 4);
    for i in 0..conn.num_events() {
        assert!(conn.get_event(i).unwrap().sample_time >= 44100);
    }
    assert_eq!(
        conn.get_event(0),
        Some(TimedEvent {
            sample_time: 44100,
            event: MidiEvent::NoteOn { channel: 0, key: 62, vel: 100 }
        })
    );
    assert_eq!(
        conn.get_event(3),
        Some(TimedEvent { sample_time: 110250, event: MidiEvent::NoteOff { channel: 0, key: 64 } })
    );
    assert_eq!(conn.get_event(4), None);
}

#[test]
fn the_commands_to_play_and_to_stop_do_the_same() {
    let mut synth = oxisynth::Synth::default();
    let mut conn = Conn::new(48000);
    let state = state_with(vec![track_with(1, vec![note(60, 0, 192), note(61, 96, 100)])], 120);
    let commands = vec![Command::Stop, Command::PlayFrom { time: 96 }, Command::PlayFrom { time: 0 }];
    assert_eq!(conn.do_commands(&mut synth, &state, &commands, 0), (3, Outcome::Done, vec![]));
    // The stop at rest did nothing, and so did the second request to play.
    assert_eq!(conn.play_state(), PlayState::Playing(12000));
    assert_eq!(conn.num_events(), 2);
    assert_eq!(conn.get_event(0).unwrap().sample_time, 12000);
    assert_eq!(conn.get_event(1).unwrap().sample_time, 12500);
    assert_eq!(
        conn.do_command(&mut synth, &state, &Command::Stop),
        (
            Outcome::Send,
            vec![MidiEvent::AllNotesOff { channel: 1 }, MidiEvent::AllSoundOff { channel: 1 }]
        )
    );
    assert_eq!(conn.play_state(), PlayState::Decaying);
    assert_eq!(conn.num_events(), 2);
}

#[test]
fn each_sample_of_playback_takes_the_events_that_are_due() {
    let mut conn = Conn::new(192);
    let state = state_with(vec![track_with(0, vec![note(60, 0, 2), note(61, 1, 2)])], 60);
    assert_eq!(conn.tick(), (false, vec![]));
    conn.start_music(&state);
    assert_eq!(conn.play_state(), PlayState::Playing(0));
    assert_eq!(conn.num_events(), 4);
    assert_eq!(conn.tick(), (true, vec![MidiEvent::NoteOn { channel: 0, key: 60, vel: 100 }]));
    assert_eq!(conn.play_state(), PlayState::Playing(1));
    assert_eq!(conn.num_events(), 3);
    assert_eq!(conn.tick(), (true, vec![MidiEvent::NoteOn { channel: 0, key: 61, vel: 100 }]));
    assert_eq!(conn.play_state(), PlayState::Playing(2));
    assert_eq!(conn.num_events(), 2);
    // Events that are due at one sample leave in the order they were scheduled in.
    assert_eq!(
        conn.tick(),
        (
            true,
            vec![MidiEvent::NoteOff { channel: 0, key: 60 }, MidiEvent::NoteOff { channel: 0, key: 61 }]
        )
    );
    assert_eq!(conn.play_state(), PlayState::Decaying);
    assert_eq!(conn.num_events(), 0);
    assert_eq!(conn.tick(), (true, vec![]));
    assert_eq!(conn.play_state(), PlayState::Decaying);
    conn.decayed();
    assert_eq!(conn.play_state(), PlayState::NotPlaying);
}

#[test]
fn muted_tracks_are_not_scheduled() {
    let mut conn = Conn::new(44100);
    let mut muted = track_with(1, vec![note(61, 0, 96)]);
    muted.mute = true;
    let state = state_with(vec![track_with(0, vec![note(60, 0, 96)]), muted], 60);
    conn.start_music(&state);
    assert_eq!(conn.num_events(), 2);
    assert_eq!(conn.get_event(0).unwrap().event, MidiEvent::NoteOn { channel: 0, key: 60, vel: 100 });
    assert_eq!(conn.get_event(1).unwrap().event, MidiEvent::NoteOff { channel: 0, key: 60 });
}

#[test]
fn an_export_waits_while_another_is_under_way() {
    let mut conn = Conn::new(44100);
    let state = state_with(vec![track_with(0, vec![note(60, 0, 192)])], 60);
    let exporter = Exporter::new();
    assert!(conn.poll_export().is_none());
    conn.start_export(&state, "first.wav".to_string(), &exporter);
    conn.start_export(&state, "second.wav".to_string(), &exporter);
    assert!(!conn.exporting());
    let first = conn.poll_export().unwrap();
    assert_eq!(first.path(), "first.wav");
    assert!(conn.exporting());
    assert_eq!(
        conn.export_state(),
        ExportState::WritingWav { total_samples: 44100, exported_samples: 0 }
    );
    // The second export is not handed out while the first is under way.
    assert!(conn.poll_export().is_none());
    conn.set_export_state(ExportState::AppendingDecay);
    assert!(conn.poll_export().is_none());
    conn.set_export_state(ExportState::WritingToDisk);
    assert!(conn.poll_export().is_none());
    conn.set_export_state(ExportState::Done);
    assert!(conn.poll_export().is_none());
    conn.set_export_state(ExportState::NotExporting);
    let second = conn.poll_export().unwrap();
    assert_eq!(second.path(), "second.wav");
    assert!(conn.exporting());
    conn.set_export_state(ExportState::NotExporting);
    assert!(conn.poll_export().is_none());
    assert!(!conn.exporting());
}

#[test]
fn a_midi_file_is_not_rendered() {
    let mut conn = Conn::new(44100);
    let state = state_with(vec![track_with(0, vec![note(60, 0, 192)])], 60);
    let mut exporter = Exporter::new();
    assert!(exporter.export_type.set(1));
    assert_eq!(exporter.get_export_type(), ExportType::Mid);
    conn.start_export(&state, "music.mid".to_string(), &exporter);
    assert!(conn.poll_export().is_none());
}

#[test]
fn an_export_keeps_the_settings_it_was_started_with() {
    let mut synth = oxisynth::Synth::default();
    let mut conn = Conn::new(44100);
    let state = state_with(vec![track_with(0, vec![note(60, 0, 192)])], 60);
    let mut exporter = Exporter::new();
    exporter.framerate = 22050;
    assert!(exporter.export_type.set(3));
    let command = Command::Export { path: "music.ogg".to_string(), settings: exporter };
    assert_eq!(conn.do_command(&mut synth, &state, &command), (Outcome::Done, vec![]));
    let session = conn.poll_export().unwrap();
    assert_eq!(session.exporter().framerate, 22050);
    assert_eq!(session.exporter().get_export_type(), ExportType::Ogg);
    assert_eq!(session.total_samples(0), Some(22050));
    assert_eq!(session.file_name("music", 0), Some("music.ogg".to_string()));
    assert_eq!(session.file_name("music", 1), None);
}

/// Hands the events to the synthesizer, in their order. An event that it
/// refuses is dropped.
fn send(synth: &mut oxisynth::Synth, events: &[MidiEvent]) {
    for event in events {
        let _ = synth.send_event(match *event {
            MidiEvent::NoteOn { channel, key, vel } => oxisynth::MidiEvent::NoteOn { channel, key, vel },
            MidiEvent::NoteOff { channel, key } => oxisynth::MidiEvent::NoteOff { channel, key },
            MidiEvent::AllNotesOff { channel } => oxisynth::MidiEvent::AllNotesOff { channel },
            MidiEvent::AllSoundOff { channel } => oxisynth::MidiEvent::AllSoundOff { channel },
        });
    }
}

/// Runs an export as a program would, and returns for each file its name
/// and the frames that were read for it.
fn run(session: &mut ExportSession, synth: &mut oxisynth::Synth) -> Vec<(String, Vec<(i16, i16)>)> {
    let mut files = vec![];
    let mut frames: Vec<(i16, i16)> = vec![];
    let mut steps = 0u64;
    loop {
        steps += 1;
        assert!(steps < 10_000_000);
        let (step, events) = session.next();
        match step {
            ExportStep::Render { .. } => {}
            _ => assert!(events.is_empty()),
        }
        send(synth, &events);
        match step {
            ExportStep::Begin { total_samples } => {
                assert_eq!(
                    session.state(),
                    ExportState::WritingWav { total_samples, exported_samples: 0 }
                );
                frames = vec![(0, 0); total_samples as usize];
            }
            ExportStep::Render { index } => {
                let (left, right) = synth.read_next();
                frames[index as usize] = (to_i16(left), to_i16(right));
            }
            ExportStep::Decay => {
                assert_eq!(session.state(), ExportState::AppendingDecay);
                let (left, right) = synth.read_next();
                frames.push((to_i16(left), to_i16(right)));
                session.observe(to_i16(left), to_i16(right));
            }
            ExportStep::Write { file } => {
                assert_eq!(session.state(), ExportState::WritingToDisk);
                assert_eq!(file, files.len());
                files.push((session.file_name("out", file).unwrap(), frames.clone()));
            }
            ExportStep::FileDone => {
                assert_eq!(session.state(), ExportState::Done);
            }
            ExportStep::Finished => {
                assert_eq!(session.state(), ExportState::NotExporting);
                return files;
            }
        }
    }
}

#[test]
fn a_note_is_rendered_and_its_decay_is_appended() {
    let mut synth = oxisynth::Synth::default();
    let mut conn = Conn::new(44100);
    conn.load_soundfont(&mut synth, 0, "a.sf2".to_string(), font(&some_presets()));
    // A note of one second.
    let music = {
        let mut music = Music::new();
        music.midi_tracks = vec![track_with(0, vec![note(69, 0, 192)])];
        music
    };
    let time = Time::new(60).unwrap();
    let files = get_exportables(&music, &time, 44100, false, MultiFileSuffix::Channel, conn.state());
    assert_eq!(files.len(), 1);
    assert_eq!(files[0].total_samples, 44100);
    let mut session = ExportSession::new("out.wav".to_string(), files, Exporter::new(), 6000);
    let written = run(&mut session, &mut synth);
    assert_eq!(written.len(), 1);
    assert_eq!(written[0].0, "out.wav");
    let frames = &written[0].1;
    assert!(frames.len() >= 44100);
    assert!(frames.len() <= 44100 + 6000);
    // The note sounds from the start.
    assert!(frames[..2000].iter().any(|f| f.0.abs() > 1 || f.1.abs() > 1));
    // An export of nothing is silent.
    let mut quiet = oxisynth::Synth::default();
    let silence = get_exportables(
        &Music::new(),
        &time,
        44100,
        false,
        MultiFileSuffix::Channel,
        &SynthState::new(),
    );
    let mut session = ExportSession::new("out.wav".to_string(), silence, Exporter::new(), 6000);
    let written = run(&mut session, &mut quiet);
    assert_eq!(written.len(), 1);
    assert_eq!(written[0].1.len(), 2048);
    assert!(written[0].1.iter().all(|f| f.0.abs() <= 1 && f.1.abs() <= 1));
}

#[test]
fn each_track_gets_a_file_of_its_own() {
    let mut synth = oxisynth::Synth::default();
    let mut conn = Conn::new(44100);
    conn.load_soundfont(&mut synth, 0, "a.sf2".to_string(), font(&some_presets()));
    conn.load_soundfont(&mut synth, 1, "a.sf2".to_string(), font(&[]));
    let mut muted = track_with(2, vec![note(60, 0, 10)]);
    muted.mute = true;
    let mut music = Music::new();
    music.midi_tracks = vec![
        track_with(0, vec![note(60, 0, 2)]),
        muted,
        track_with(1, vec![note(62, 0, 4)]),
        track_with(7, vec![]),
    ];
    let time = Time::new(60).unwrap();
    let files = get_exportables(&music, &time, 192, true, MultiFileSuffix::ChannelAndPreset, conn.state());
    assert_eq!(files.len(), 3);
    assert_eq!(files[0].total_samples, 2);
    assert_eq!(files[1].total_samples, 4);
    assert_eq!(files[2].total_samples, 0);
    assert_eq!(files[0].suffix, Some("0_Piano".to_string()));
    // Two tracks with one preset get the same suffix where only the preset is named.
    let named = get_exportables(&music, &time, 192, true, MultiFileSuffix::Preset, conn.state());
    assert_eq!(named[0].suffix, Some("Piano".to_string()));
    assert_eq!(named[1].suffix, Some("Piano".to_string()));
    assert_eq!(named[2].suffix, Some("".to_string()));
    let mut exporter = Exporter::new();
    assert!(exporter.export_type.set(4));
    let mut session = ExportSession::new("out.flac".to_string(), files, exporter, 100);
    assert_eq!(session.num_files(), 3);
    let written = run(&mut session, &mut synth);
    assert_eq!(written.len(), 3);
    assert_eq!(written[0].0, "out_0_Piano.flac");
    assert_eq!(written[1].0, "out_1_Piano.flac");
    assert_eq!(written[2].0, "out_7_.flac");
    assert!(written[0].1.len() >= 2 && written[0].1.len() <= 102);
    assert!(written[1].1.len() >= 4 && written[1].1.len() <= 104);
    assert!(written[2].1.len() <= 100);
}

#[test]
fn the_length_of_an_export_is_the_end_of_the_last_note() {
    let mut music = Music::new();
    music.midi_tracks = vec![track_with(0, vec![note(60, 0, 100), note(62, 50, 150)])];
    let time = Time::new(120).unwrap();
    for rate in [22050u32, 44100, 48000, 1, 96000] {
        let files =
            get_exportables(&music, &time, rate, false, MultiFileSuffix::Channel, &SynthState::new());
        assert_eq!(files.len(), 1);
        assert_eq!(files[0].total_samples, ppq_to_samples(150, 120, rate));
        assert_eq!(files[0].suffix, None);
        assert_eq!(files[0].events.len(), 4);
        // The events are in order, and none is due after the last sample.
        let mut before = 0;
        for i in 0..4 {
            let event = files[0].events.get(i).unwrap();
            assert!(before <= event.sample_time);
            assert!(event.sample_time <= files[0].total_samples);
            before = event.sample_time;
        }
        assert_eq!(
            files[0].events.get(3).unwrap(),
            TimedEvent {
                sample_time: files[0].total_samples,
                event: MidiEvent::NoteOff { channel: 0, key: 62 }
            }
        );
    }
    let files =
        get_exportables(&music, &time, 44100, false, MultiFileSuffix::Channel, &SynthState::new());
    assert_eq!(files[0].total_samples, 17226);
    assert_eq!(
        files[0].events.get(1).unwrap(),
        TimedEvent { sample_time: 5742, event: MidiEvent::NoteOn { channel: 0, key: 62, vel: 100 } }
    );
}

#[test]
fn the_tracks_of_one_file_are_rendered_together() {
    let mut music = Music::new();
    let mut quiet = track_with(1, vec![note(70, 10, 400)]);
    quiet.gain = 64;
    music.midi_tracks = vec![track_with(0, vec![note(60, 0, 100)]), quiet];
    let time = Time::new(60).unwrap();
    let files = get_exportables(&music, &time, 192, false, MultiFileSuffix::Preset, &SynthState::new());
    assert_eq!(files.len(), 1);
    assert_eq!(files[0].total_samples, 400);
    let events: Vec<TimedEvent> = (0..4).map(|i| files[0].events.get(i).unwrap()).collect();
    assert_eq!(
        events,
        vec![
            TimedEvent { sample_time: 0, event: MidiEvent::NoteOn { channel: 0, key: 60, vel: 100 } },
            TimedEvent { sample_time: 10, event: MidiEvent::NoteOn { channel: 1, key: 70, vel: 50 } },
            TimedEvent { sample_time: 100, event: MidiEvent::NoteOff { channel: 0, key: 60 } },
            TimedEvent { sample_time: 400, event: MidiEvent::NoteOff { channel: 1, key: 70 } },
        ]
    );
}

#[test]
fn the_programs_of_other_files_are_told_again() {
    let mut synth = oxisynth::Synth::default();
    let mut conn = Conn::new(44100);
    assert_eq!(conn.programs_to_restore(0), vec![]);
    assert!(conn.load_soundfont(&mut synth, 9, "a.sf2".to_string(), font(&some_presets())));
    assert!(conn.set_program(&mut synth, 2, 0, 128, 0));
    assert!(conn.load_soundfont(&mut synth, 4, "b.sf2".to_string(), font(&[(7, 7, "Other")])));
    assert!(conn.set_program(&mut synth, 0, 1, 7, 7));
    let of_first = vec![
        Restored { channel: 2, font: 0, bank: 128, preset: 0 },
        Restored { channel: 9, font: 0, bank: 0, preset: 3 },
    ];
    let of_second = vec![
        Restored { channel: 0, font: 1, bank: 7, preset: 7 },
        Restored { channel: 4, font: 1, bank: 7, preset: 7 },
    ];
    assert_eq!(conn.programs_to_restore(1), of_first);
    assert_eq!(conn.programs_to_restore(0), of_second);
    let mut all = vec![of_second[0], of_first[0], of_second[1], of_first[1]];
    assert_eq!(conn.programs_to_restore(2), all);
    conn.unset_program(4);
    all.remove(2);
    assert_eq!(conn.programs_to_restore(usize::MAX), all);
}

#[test]
fn an_export_hands_out_the_events_of_each_sample_before_it_is_read() {
    let mut music = Music::new();
    music.midi_tracks = vec![
        track_with(0, vec![note(60, 0, 2), note(61, 1, 3)]),
        track_with(4, vec![note(70, 1, 2)]),
    ];
    let time = Time::new(60).unwrap();
    // One sample for each pulse.
    let files = get_exportables(&music, &time, 192, false, MultiFileSuffix::Channel, &SynthState::new());
    assert_eq!(files[0].total_samples, 3);
    let mut session = ExportSession::new("out.wav".to_string(), files, Exporter::new(), 0);
    assert_eq!(session.next(), (ExportStep::Begin { total_samples: 3 }, vec![]));
    assert_eq!(
        session.next(),
        (ExportStep::Render { index: 0 }, vec![MidiEvent::NoteOn { channel: 0, key: 60, vel: 100 }])
    );
    assert_eq!(
        session.next(),
        (
            ExportStep::Render { index: 1 },
            vec![
                MidiEvent::NoteOn { channel: 0, key: 61, vel: 100 },
                MidiEvent::NoteOn { channel: 4, key: 70, vel: 100 },
            ]
        )
    );
    // At one sample the events leave in the order in which the notes were scheduled.
    assert_eq!(
        session.next(),
        (
            ExportStep::Render { index: 2 },
            vec![MidiEvent::NoteOff { channel: 0, key: 60 }, MidiEvent::NoteOff { channel: 4, key: 70 }]
        )
    );
    // The end of the last note is due at the end of the file: it is not rendered.
    assert_eq!(session.next(), (ExportStep::Write { file: 0 }, vec![]));
    assert_eq!(session.next(), (ExportStep::FileDone, vec![]));
    assert_eq!(session.next(), (ExportStep::Finished, vec![]));
    assert_eq!(session.next(), (ExportStep::Finished, vec![]));
}

#[test]
fn commands_stop_where_events_are_left_to_send() {
    let mut synth = oxisynth::Synth::default();
    let mut conn = Conn::new(44100);
    let state = state_with(vec![track_with(3, vec![note(60, 0, 96)]), track_with(5, vec![])], 60);
    let commands = vec![
        Command::PlayFrom { time: 0 },
        Command::NoteOn { channel: 1, key: 40, velocity: 77 },
        Command::Stop,
        Command::Stop,
        Command::NoteOff { channel: 1, key: 40 },
    ];
    assert_eq!(
        conn.do_commands(&mut synth, &state, &commands, 0),
        (1, Outcome::Send, vec![MidiEvent::NoteOn { channel: 1, key: 40, vel: 77 }])
    );
    // A struck key leaves the music fading, so the next command stops it.
    assert_eq!(conn.play_state(), PlayState::Decaying);
    assert_eq!(
        conn.do_commands(&mut synth, &state, &commands, 2),
        (
            2,
            Outcome::Send,
            vec![
                MidiEvent::AllNotesOff { channel: 3 },
                MidiEvent::AllSoundOff { channel: 3 },
                MidiEvent::AllNotesOff { channel: 5 },
                MidiEvent::AllSoundOff { channel: 5 },
            ]
        )
    );
    conn.decayed();
    assert_eq!(
        conn.do_commands(&mut synth, &state, &commands, 3),
        (4, Outcome::Send, vec![MidiEvent::NoteOff { channel: 1, key: 40 }])
    );
    assert_eq!(conn.do_commands(&mut synth, &state, &commands, 5), (5, Outcome::Done, vec![]));
}

#[test]
fn stopping_the_music_silences_the_channel_of_every_track() {
    let mut conn = Conn::new(44100);
    let mut muted = track_with(9, vec![]);
    muted.mute = true;
    let mut music = Music::new();
    music.midi_tracks = vec![track_with(2, vec![note(60, 0, 96)]), muted, track_with(2, vec![])];
    assert_eq!(
        conn.stop_music(&music),
        vec![
            MidiEvent::AllNotesOff { channel: 2 },
            MidiEvent::AllSoundOff { channel: 2 },
            MidiEvent::AllNotesOff { channel: 9 },
            MidiEvent::AllSoundOff { channel: 9 },
            MidiEvent::AllNotesOff { channel: 2 },
            MidiEvent::AllSoundOff { channel: 2 },
        ]
    );
    assert_eq!(conn.play_state(), PlayState::Decaying);
    assert_eq!(conn.stop_music(&Music::new()), vec![]);
    assert_eq!(conn.play_state(), PlayState::Decaying);
}

#[test]
fn loaded_files_are_found_by_their_paths() {
    let mut synth = oxisynth::Synth::default();
    let mut fonts = LoadedFonts::new();
    assert_eq!(fonts.len(), 0);
    assert_eq!(fonts.find(&"a.sf2".to_string()), None);
    for path in ["a.sf2", "b.sf2", "c.sf2"] {
        fonts = fonts.add(LoadedFont {
            path: path.to_string(),
            banks: SoundFontBanks::new(font(&some_presets()), &mut synth),
        });
    }
    assert_eq!(fonts.len(), 3);
    assert_eq!(fonts.find(&"a.sf2".to_string()), Some(0));
    assert_eq!(fonts.find(&"b.sf2".to_string()), Some(1));
    assert_eq!(fonts.find(&"c.sf2".to_string()), Some(2));
    assert_eq!(fonts.find(&"d.sf2".to_string()), None);
    assert_eq!(fonts.find(&"".to_string()), None);
    assert_eq!(fonts.get(1).path, "b.sf2");
    // A path that is there twice is found at its first place.
    fonts = fonts.add(LoadedFont {
        path: "b.sf2".to_string(),
        banks: SoundFontBanks::new(font(&[]), &mut synth),
    });
    assert_eq!(fonts.len(), 4);
    assert_eq!(fonts.find(&"b.sf2".to_string()), Some(1));
    assert_eq!(fonts.get(3).path, "b.sf2");
}

use cacophony_audio::boolean::{Boolean, BooleanText, KV_PADDING};
use cacophony_audio::index::Index;
use cacophony_audio::music::{MidiTrack, Music, Note};
use cacophony_audio::open_file::{
    has_extension, ChildPaths, DirectoryEntry, FileOrDirectory,
    OpenFileType,
};
use cacophony_audio::open_file_panel::OpenFilePanel;
use cacophony_audio::piano_roll_panel::{select_track, EditModeDeltas, PianoRollPanel};
use cacophony_audio::state::{
    deselect, EditMode, InputState, PanelType, PianoRollMode, SelectMode, State,
};
use cacophony_audio::time::{Time, PPQ};

fn state() -> State {
    State {
        music: Music::new(),
        time: Time::new(120).unwrap(),
        input: InputState {
            armed: false,
            alphanumeric_input: false,
            can_undo: true,
            beat: 192,
            volume: 127,
            use_volume: true,
        },
        panels: vec![PanelType::Music, PanelType::Tracks, PanelType::PianoRoll],
        focus: Index::new(2, 3),
        select_mode: SelectMode::Single(None),
        piano_roll_mode: PianoRollMode::Time,
        unsaved_changes: false,
    }
}

#[test]
fn an_index_moves_around_the_ends_of_its_list() {
    let mut index = Index::new(1, 3);
    assert_eq!((index.get(), index.get_length()), (1, 3));
    index.increment(true);
    assert_eq!(index.get(), 2);
    index.increment(true);
    assert_eq!(index.get(), 0);
    index.increment(false);
    assert_eq!(index.get(), 2);
    index.increment(false);
    assert_eq!(index.get(), 1);
    assert!(index.set(0));
    assert_eq!(index.get(), 0);
    assert!(!index.set(3));
    assert_eq!(index.get(), 0);
    assert_eq!(Index::new(5, 3).get(), 0);
    let mut empty = Index::new(0, 0);
    empty.increment(true);
    empty.increment(false);
    assert_eq!((empty.get(), empty.get_length()), (0, 0));
    assert!(!empty.set(0));
    let mut one = Index::new(0, 1);
    one.increment(true);
    assert_eq!(one.get(), 0);
    one.increment(false);
    assert_eq!(one.get(), 0);
}

#[test]
fn the_open_file_panel_takes_over_and_gives_back() {
    let mut state = state();
    let mut panel = OpenFilePanel::new();
    panel.soundfont(&mut state);
    assert_eq!(panel.get_open_file_type(), OpenFileType::SoundFont);
    assert_eq!(state.panels, vec![PanelType::OpenFile]);
    assert_eq!((state.focus.get(), state.focus.get_length()), (0, 1));
    assert!(!state.input.can_undo);
    assert!(!state.input.alphanumeric_input);
    panel.disable(&mut state);
    assert_eq!(state.panels, vec![PanelType::Music, PanelType::Tracks, PanelType::PianoRoll]);
    assert_eq!((state.focus.get(), state.focus.get_length()), (2, 3));
    assert!(state.input.can_undo);
    assert!(!state.input.alphanumeric_input);
}

#[test]
fn a_panel_for_a_saved_file_reads_keys_as_text() {
    let mut state = state();
    let mut panel = OpenFilePanel::new();
    panel.write_save(&mut state);
    assert_eq!(panel.get_open_file_type(), OpenFileType::WriteSave);
    assert!(state.input.alphanumeric_input);
    assert!(!state.input.can_undo);
    assert_eq!(state.panels, vec![PanelType::OpenFile]);
    panel.disable(&mut state);
    assert!(!state.input.alphanumeric_input);
    assert_eq!(state.panels.len(), 3);
    panel.read_save(&mut state);
    assert_eq!(panel.get_open_file_type(), OpenFileType::ReadSave);
    assert!(state.input.alphanumeric_input);
    panel.disable(&mut state);
    panel.export(&mut state);
    assert_eq!(panel.get_open_file_type(), OpenFileType::Export);
    assert!(!state.input.alphanumeric_input);
    assert_eq!(state.panels, vec![PanelType::OpenFile]);
    panel.disable(&mut state);
    assert_eq!(state.panels, vec![PanelType::Music, PanelType::Tracks, PanelType::PianoRoll]);
    assert_eq!(state.focus.get(), 2);
}

fn entry(path: &str, is_file: bool) -> FileOrDirectory {
    FileOrDirectory { path: path.to_string(), is_file }
}

#[test]
fn the_first_file_is_selected_in_a_new_directory() {
    let mut paths = ChildPaths::new();
    assert!(paths.selected.is_none());
    paths.set(vec![], None);
    assert_eq!(paths.selected, None);
    paths.set(vec![entry("a", false), entry("b", false)], None);
    assert_eq!(paths.selected, Some(0));
    paths.set(vec![entry("a.sf2", true), entry("b.sf2", true)], None);
    assert_eq!(paths.selected, Some(0));
    paths.set(
        vec![entry("a", false), entry("b", false), entry("c.sf2", true), entry("d.sf2", true)],
        None,
    );
    assert_eq!(paths.selected, Some(2));
    assert_eq!(paths.children.len(), 4);
    assert_eq!(paths.children[2].path, "c.sf2");
}

#[test]
fn the_directory_that_was_left_is_selected() {
    let mut paths = ChildPaths::new();
    let children = || vec![entry("a", false), entry("b", false), entry("c.sf2", true)];
    paths.set(children(), Some("b".to_string()));
    assert_eq!(paths.selected, Some(1));
    paths.set(children(), Some("c.sf2".to_string()));
    assert_eq!(paths.selected, Some(2));
    paths.set(children(), Some("z".to_string()));
    assert_eq!(paths.selected, None);
    paths.set(vec![entry("a", false), entry("a", false)], Some("a".to_string()));
    assert_eq!(paths.selected, Some(0));
    paths.set(vec![], Some("a".to_string()));
    assert_eq!(paths.selected, None);
}

fn read(path: &str, extension: Option<&str>, is_file: bool) -> DirectoryEntry {
    DirectoryEntry {
        path: path.to_string(),
        extension: extension.map(|e| e.to_string()),
        is_file,
        is_directory: !is_file,
    }
}

#[test]
fn a_listing_has_the_directories_first_and_only_the_wanted_files() {
    let entries = vec![
        read("a.sf2", Some("sf2"), true),
        read("b", None, false),
        read("c.wav", Some("wav"), true),
        read("d", None, true),
        read("e.sf3", Some("sf3"), true),
        read("f.dir", Some("dir"), false),
    ];
    let listing: Vec<(String, bool)> = ChildPaths::get_paths_in_directory(&entries, OpenFileType::SoundFont)
        .into_iter()
        .map(|e| (e.path, e.is_file))
        .collect();
    assert_eq!(
        listing,
        vec![
            ("b".to_string(), false),
            ("f.dir".to_string(), false),
            ("a.sf2".to_string(), true),
            ("e.sf3".to_string(), true),
        ]
    );
    let listing = ChildPaths::get_paths_in_directory(&entries, OpenFileType::Export);
    assert_eq!(listing.len(), 3);
    assert_eq!(listing[2].path, "c.wav");
    assert_eq!(ChildPaths::get_paths_in_directory(&entries, OpenFileType::ReadSave).len(), 2);
    assert_eq!(ChildPaths::get_paths_in_directory(&vec![], OpenFileType::ReadSave).len(), 0);
}

#[test]
fn each_purpose_lists_its_extensions() {
    assert_eq!(OpenFileType::Export.get_extensions(), vec!["wav", "mid", "mp3", "ogg", "flac"]);
    assert_eq!(OpenFileType::ReadSave.get_extensions(), vec!["cac"]);
    assert_eq!(OpenFileType::WriteSave.get_extensions(), vec!["cac"]);
    assert_eq!(OpenFileType::SoundFont.get_extensions(), vec!["sf2", "sf3"]);
    assert!(has_extension(OpenFileType::Export, &Some("flac".to_string())));
    assert!(!has_extension(OpenFileType::Export, &Some("cac".to_string())));
    assert!(!has_extension(OpenFileType::Export, &None));
    assert!(has_extension(OpenFileType::WriteSave, &Some("cac".to_string())));
    assert!(!has_extension(OpenFileType::SoundFont, &Some("SF2".to_string())));
}

#[test]
fn a_boolean_stands_beside_its_key() {
    let text = BooleanText { yes: "Yes".to_string(), no: "No".to_string() };
    assert_eq!(text.get_max_length(), 3);
    let boolean = Boolean::new("Armed", [4, 7], &text);
    assert_eq!(boolean.key.text, "Armed");
    assert_eq!(boolean.key.position, [4, 7]);
    assert_eq!(boolean.value_position, [4 + 5 + KV_PADDING, 7]);
    assert_eq!(boolean.width, 5 + KV_PADDING + 3);
    let label = boolean.get_boolean_label(true, &text);
    assert_eq!(label.text, "Yes");
    assert_eq!(label.position, [11, 7]);
    let label = boolean.get_boolean_label(false, &text);
    assert_eq!(label.text, "No");
    assert_eq!(label.position, [11, 7]);
}

#[test]
fn a_boolean_counts_characters_and_stays_on_the_grid() {
    let text = BooleanText { yes: "ja".to_string(), no: "nö!".to_string() };
    assert_eq!(text.get_max_length(), 3);
    let boolean = Boolean::new("Größe", [u32::MAX - 3, 0], &text);
    assert_eq!(boolean.width, 10);
    assert_eq!(boolean.value_position, [u32::MAX, 0]);
    let boolean = Boolean::new("", [0, u32::MAX], &BooleanText { yes: "".to_string(), no: "".to_string() });
    assert_eq!(boolean.width, 2);
    assert_eq!(boolean.value_position, [2, u32::MAX]);
}

#[test]
fn edit_mode_deltas() {
    let e = EditModeDeltas {
        quick_time_factor: 4,
        precise_time: PPQ / 32,
        normal_note: 1,
        quick_note: 12,
        precise_note: 1,
        normal_volume: 1,
        quick_volume: 10,
        precise_volume: 1,
    };
    let mut state = state();
    state.input.beat = PPQ;
    assert_eq!(e.get_dt(&EditMode::Normal, &state.input), PPQ);
    assert_eq!(e.get_dt(&EditMode::Quick, &state.input), 4 * PPQ);
    assert_eq!(e.get_dt(&EditMode::Precise, &state.input), PPQ / 32);
    assert_eq!(e.get_dn(&EditMode::Normal), 1);
    assert_eq!(e.get_dn(&EditMode::Quick), 12);
    assert_eq!(e.get_dn(&EditMode::Precise), 1);
    assert_eq!(e.get_dv(&EditMode::Normal), 1);
    assert_eq!(e.get_dv(&EditMode::Quick), 10);
    assert_eq!(e.get_dv(&EditMode::Precise), 1);
}

#[test]
fn the_steps_of_an_edit_depend_on_the_mode() {
    let e = EditModeDeltas {
        quick_time_factor: 4,
        precise_time: 6,
        normal_note: 1,
        quick_note: 12,
        precise_note: 2,
        normal_volume: 3,
        quick_volume: 10,
        precise_volume: 5,
    };
    let mut state = state();
    state.input.beat = 96;
    assert_eq!(e.get_dt(&EditMode::Normal, &state.input), 96);
    assert_eq!(e.get_dt(&EditMode::Quick, &state.input), 384);
    assert_eq!(e.get_dt(&EditMode::Precise, &state.input), 6);
    state.input.beat = u64::MAX / 2;
    assert_eq!(e.get_dt(&EditMode::Quick, &state.input), u64::MAX);
    assert_eq!(e.get_dn(&EditMode::Normal), 1);
    assert_eq!(e.get_dn(&EditMode::Quick), 12);
    assert_eq!(e.get_dn(&EditMode::Precise), 2);
    assert_eq!(e.get_dv(&EditMode::Normal), 3);
    assert_eq!(e.get_dv(&EditMode::Quick), 10);
    assert_eq!(e.get_dv(&EditMode::Precise), 5);
}

#[test]
fn the_piano_roll_offers_the_beat_it_was_given() {
    let panel = PianoRollPanel::new(&96, vec![192, 96, 48]);
    assert_eq!(panel.get_beat(), 96);
    assert_eq!(panel.num_copied(), 0);
    assert_eq!(panel.get_copied(0), None);
    let mut panel = PianoRollPanel::new(&7, vec![192, 96, 48]);
    assert_eq!(panel.get_beat(), 7);
    let mut state = state();
    panel.set_input_beat(true, &mut state);
    assert_eq!(state.input.beat, 192);
    assert_eq!(panel.get_beat(), 192);
    panel.set_input_beat(false, &mut state);
    assert_eq!(state.input.beat, 7);
    panel.set_input_beat(false, &mut state);
    assert_eq!(state.input.beat, 48);
    let mut panel = PianoRollPanel::new(&5, vec![]);
    assert_eq!(panel.get_beat(), 5);
    panel.set_input_beat(true, &mut state);
    assert_eq!(state.input.beat, 5);
    PianoRollPanel::set_mode(PianoRollMode::Edit, &mut state);
    assert_eq!(state.piano_roll_mode, PianoRollMode::Edit);
}

fn note(key: u8) -> Note {
    Note { note: key, velocity: 100, start: key as u64, end: key as u64 + 1 }
}

fn state_with_notes() -> State {
    let mut state = state();
    let mut track = MidiTrack::new(0);
    track.notes = vec![note(0), note(1), note(2), note(3), note(4)];
    state.music.midi_tracks = vec![MidiTrack::new(9), track];
    state.music.selected = Some(1);
    state
}

#[test]
fn the_selected_notes_are_copied() {
    let mut panel = PianoRollPanel::new(&96, vec![96]);
    let mut state = state_with_notes();
    panel.copy_notes(&state);
    assert_eq!(panel.num_copied(), 0);
    state.select_mode = SelectMode::Many(Some(vec![3, 1, 7]));
    panel.copy_notes(&state);
    assert_eq!(panel.num_copied(), 2);
    assert_eq!(panel.get_copied(0), Some(note(3)));
    assert_eq!(panel.get_copied(1), Some(note(1)));
    // Without a selection what was copied stays.
    state.select_mode = SelectMode::Many(None);
    panel.copy_notes(&state);
    assert_eq!(panel.num_copied(), 2);
    state.select_mode = SelectMode::Single(Some(4));
    panel.copy_notes(&state);
    assert_eq!(panel.num_copied(), 1);
    assert_eq!(panel.get_copied(0), Some(note(4)));
    state.music.selected = None;
    state.select_mode = SelectMode::Single(Some(0));
    panel.copy_notes(&state);
    assert_eq!(panel.get_copied(0), Some(note(4)));
}

#[test]
fn the_selected_notes_are_deleted() {
    let mut state = state_with_notes();
    assert!(!PianoRollPanel::delete_notes(&mut state));
    assert_eq!(state.music.midi_tracks[1].notes.len(), 5);
    state.select_mode = SelectMode::Many(Some(vec![3, 0, 3, 9]));
    assert!(PianoRollPanel::delete_notes(&mut state));
    assert_eq!(state.music.midi_tracks[1].notes, vec![note(1), note(2), note(4)]);
    assert_eq!(state.music.midi_tracks[0].notes, vec![]);
    assert_eq!(state.music.midi_tracks[1].channel, 0);
    assert!(matches!(state.select_mode, SelectMode::Many(None)));
    assert!(!PianoRollPanel::delete_notes(&mut state));
    state.select_mode = SelectMode::Single(Some(1));
    assert!(PianoRollPanel::delete_notes(&mut state));
    assert_eq!(state.music.midi_tracks[1].notes, vec![note(1), note(4)]);
    assert!(matches!(state.select_mode, SelectMode::Single(None)));
    state.music.selected = Some(5);
    state.select_mode = SelectMode::Single(Some(0));
    assert!(!PianoRollPanel::delete_notes(&mut state));
    assert!(matches!(state.select_mode, SelectMode::Single(Some(0))));
}

#[test]
fn the_selection_moves_from_track_to_track() {
    let mut state = state_with_notes();
    state.select_mode = SelectMode::Single(Some(2));
    assert!(!select_track(&mut state, true, false));
    assert_eq!(state.music.selected, Some(1));
    assert!(matches!(state.select_mode, SelectMode::Single(Some(2))));
    assert!(select_track(&mut state, false, true));
    assert_eq!(state.music.selected, Some(0));
    assert!(matches!(state.select_mode, SelectMode::Single(None)));
    assert!(!select_track(&mut state, false, true));
    assert!(!select_track(&mut state, false, false));
    assert!(select_track(&mut state, true, true));
    assert_eq!(state.music.selected, Some(1));
    state.music.selected = None;
    assert!(!select_track(&mut state, true, true));
    state.select_mode = SelectMode::Many(Some(vec![1]));
    deselect(&mut state);
    assert!(matches!(state.select_mode, SelectMode::Many(None)));
    assert_eq!(state.select_mode.get_note_indices(), None);
    assert_eq!(SelectMode::Single(Some(3)).get_note_indices(), Some(vec![3]));
    assert_eq!(SelectMode::Many(Some(vec![3, 4])).get_note_indices(), Some(vec![3, 4]));
}

#[test]
fn defaults_are_empty() {
    let paths = ChildPaths::default();
    assert!(paths.children.is_empty());
    assert_eq!(paths.selected, None);
    let panel = OpenFilePanel::default();
    assert_eq!(panel.get_open_file_type(), OpenFileType::SoundFont);
    let music = Music::default();
    assert!(music.midi_tracks.is_empty());
    assert_eq!(music.selected, None);
}

use cacophony_audio::music::{
    get_playable_tracks, get_playback_notes, scale_velocity, MidiTrack, Music, Note,
};
use cacophony_audio::time::{ppq_to_samples, Time, DEFAULT_BPM, PPQ};

fn note(key: u8, velocity: u8, start: u64, end: u64) -> Note {
    Note { note: key, velocity, start, end }
}

#[test]
fn a_quarter_note_at_sixty_beats_lasts_a_second() {
    assert_eq!(ppq_to_samples(PPQ, 60, 44100), 44100);
    assert_eq!(ppq_to_samples(PPQ, 120, 44100), 22050);
    assert_eq!(ppq_to_samples(0, 120, 44100), 0);
    assert_eq!(ppq_to_samples(150, 120, 44100), 17226);
    assert_eq!(ppq_to_samples(1, 120, 48000), 125);
    assert_eq!(ppq_to_samples(100, 120, 22050), 5742);
}

#[test]
fn a_time_too_late_for_a_sample_count_is_the_last_sample() {
    assert_eq!(ppq_to_samples(u64::MAX, 1, u32::MAX), u64::MAX);
    assert_eq!(ppq_to_samples(u64::MAX, 60, 44100), u64::MAX);
    assert_eq!(ppq_to_samples(u64::MAX, u64::MAX, 1), 0);
}

#[test]
fn later_pulses_are_later_samples() {
    let mut before = 0;
    for pulse in 0..2000u64 {
        let sample = ppq_to_samples(pulse, 97, 44100);
        assert!(before <= sample);
        before = sample;
    }
}

#[test]
fn there_is_no_time_at_a_tempo_of_zero() {
    assert!(Time::new(0).is_none());
    let mut time = Time::new(DEFAULT_BPM).unwrap();
    assert_eq!(time.bpm(), 120);
    assert_eq!(time.playback(), 0);
    assert_eq!(time.cursor(), 0);
    assert!(!time.set_bpm(0));
    assert_eq!(time.bpm(), 120);
    assert!(time.set_bpm(60));
    assert_eq!(time.bpm(), 60);
    time.set_playback(192);
    time.set_cursor(96);
    assert_eq!(time.playback(), 192);
    assert_eq!(time.cursor(), 96);
    assert_eq!(time.ppq_to_samples(192, 44100), 44100);
}

#[test]
fn velocity_is_scaled_by_the_gain() {
    assert_eq!(scale_velocity(100, 127), 100);
    assert_eq!(scale_velocity(100, 0), 0);
    assert_eq!(scale_velocity(100, 64), 50);
    assert_eq!(scale_velocity(127, 64), 64);
    assert_eq!(scale_velocity(127, 63), 63);
    assert_eq!(scale_velocity(1, 126), 0);
    assert_eq!(scale_velocity(255, 255), 255);
    assert_eq!(scale_velocity(200, 130), 204);
}

#[test]
fn playback_notes_start_at_the_start_or_later_and_are_scaled() {
    let mut track = MidiTrack::new(2);
    track.gain = 64;
    track.notes = vec![note(60, 100, 10, 20), note(61, 127, 5, 30), note(62, 2, 10, 11)];
    assert_eq!(
        track.get_playback_notes(10),
        vec![note(60, 50, 10, 20), note(62, 1, 10, 11)]
    );
    assert_eq!(track.get_playback_notes(11), vec![]);
    assert_eq!(track.get_playback_notes(0).len(), 3);
    assert_eq!(track.get_end(), 30);
    assert_eq!(MidiTrack::new(0).get_end(), 0);
}

#[test]
fn all_playback_notes_come_in_order_of_their_start() {
    let mut track = MidiTrack::new(2);
    track.gain = 127;
    track.notes = vec![
        note(60, 100, 10, 20),
        note(61, 101, 5, 30),
        note(62, 102, 10, 11),
        note(63, 103, 0, 1),
    ];
    assert_eq!(
        get_playback_notes(&track),
        vec![
            note(63, 103, 0, 1),
            note(61, 101, 5, 30),
            note(60, 100, 10, 20),
            note(62, 102, 10, 11),
        ]
    );
}

fn track(channel: u8, mute: bool, solo: bool) -> MidiTrack {
    let mut track = MidiTrack::new(channel);
    track.mute = mute;
    track.solo = solo;
    track
}

fn channels(tracks: Vec<&MidiTrack>) -> Vec<u8> {
    tracks.iter().map(|t| t.channel).collect()
}

#[test]
fn without_a_solo_the_tracks_that_are_not_muted_play() {
    let mut music = Music::new();
    music.midi_tracks = vec![track(0, false, false), track(1, true, false), track(2, false, false)];
    assert!(!music.has_solo());
    assert_eq!(channels(music.get_playable_tracks()), vec![0, 2]);
    assert_eq!(channels(get_playable_tracks(&music)), vec![0, 2]);
}

#[test]
fn with_a_solo_only_soloed_tracks_play() {
    let mut music = Music::new();
    music.midi_tracks = vec![
        track(0, false, false),
        track(1, true, true),
        track(2, false, true),
        track(3, false, false),
    ];
    assert!(music.has_solo());
    assert_eq!(channels(music.get_playable_tracks()), vec![1, 2]);
}

#[test]
fn music_without_tracks_plays_nothing() {
    let music = Music::new();
    assert_eq!(music.get_playable_tracks().len(), 0);
    assert!(music.get_selected_track().is_none());
}

#[test]
fn the_selected_track_is_the_one_at_the_selection() {
    let mut music = Music::new();
    music.midi_tracks = vec![track(4, false, false), track(9, false, false)];
    assert!(music.get_selected_track().is_none());
    music.selected = Some(1);
    assert_eq!(music.get_selected_track().unwrap().channel, 9);
    music.selected = Some(2);
    assert!(music.get_selected_track().is_none());
}

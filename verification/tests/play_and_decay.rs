use cacophony_audio::decayer::{is_quiet, Decayer, QUIET_FRAMES};
use cacophony_audio::play_state::{PlaySignal, PlayState};

#[test]
fn playback_goes_from_rest_to_playing_to_fading_to_rest() {
    let state = PlayState::NotPlaying;
    let state = state.next(PlaySignal::Play(77));
    assert_eq!(state, PlayState::Playing(77));
    let state = state.next(PlaySignal::Advance);
    assert_eq!(state, PlayState::Playing(78));
    let state = state.next(PlaySignal::Stop);
    assert_eq!(state, PlayState::Decaying);
    let state = state.next(PlaySignal::Decayed);
    assert_eq!(state, PlayState::NotPlaying);
}

#[test]
fn the_end_of_the_events_leaves_playback_fading() {
    assert_eq!(PlayState::Playing(5).next(PlaySignal::EndOfEvents), PlayState::Decaying);
}

#[test]
fn a_signal_without_meaning_changes_nothing() {
    assert_eq!(PlayState::NotPlaying.next(PlaySignal::Stop), PlayState::NotPlaying);
    assert_eq!(PlayState::NotPlaying.next(PlaySignal::Decayed), PlayState::NotPlaying);
    assert_eq!(PlayState::NotPlaying.next(PlaySignal::Advance), PlayState::NotPlaying);
    assert_eq!(PlayState::Playing(3).next(PlaySignal::Play(9)), PlayState::Playing(3));
    assert_eq!(PlayState::Playing(3).next(PlaySignal::Decayed), PlayState::Playing(3));
    assert_eq!(PlayState::Decaying.next(PlaySignal::Play(9)), PlayState::Decaying);
    assert_eq!(PlayState::Decaying.next(PlaySignal::Stop), PlayState::Decaying);
    assert_eq!(PlayState::Playing(u64::MAX).next(PlaySignal::Advance), PlayState::Playing(u64::MAX));
}

#[test]
fn only_rest_is_silent() {
    assert!(!PlayState::NotPlaying.is_audible());
    assert!(PlayState::Playing(0).is_audible());
    assert!(PlayState::Decaying.is_audible());
}

#[test]
fn a_sample_next_to_zero_is_quiet() {
    assert!(is_quiet(0));
    assert!(is_quiet(1));
    assert!(is_quiet(-1));
    assert!(!is_quiet(2));
    assert!(!is_quiet(-2));
    assert!(!is_quiet(i16::MAX));
    assert!(!is_quiet(i16::MIN));
}

#[test]
fn a_detector_is_at_rest_until_it_is_started() {
    let mut decayer = Decayer::new(100);
    assert!(!decayer.decaying());
    assert!(!decayer.observe(1000, 1000));
    assert_eq!(decayer.watched(), 0);
    decayer.start();
    assert!(decayer.decaying());
    assert_eq!(decayer.limit(), 100);
}

#[test]
fn a_sound_that_never_fades_is_cut_off_at_the_limit() {
    let mut decayer = Decayer::new(1000);
    decayer.start();
    let mut frames = 0;
    while decayer.decaying() {
        decayer.observe(12000, -12000);
        frames += 1;
        assert!(frames <= 1000);
    }
    assert_eq!(frames, 1000);
    assert_eq!(decayer.watched(), 1000);
    // Further frames change nothing.
    assert!(!decayer.observe(12000, -12000));
    assert_eq!(decayer.watched(), 1000);
}

#[test]
fn silence_ends_the_decay_after_the_quiet_run() {
    let mut decayer = Decayer::new(1_000_000);
    decayer.start();
    let mut frames: u64 = 0;
    while decayer.decaying() {
        decayer.observe(0, -1);
        frames += 1;
    }
    assert_eq!(frames, QUIET_FRAMES);
}

#[test]
fn both_channels_must_be_quiet() {
    let mut decayer = Decayer::new(1_000_000);
    decayer.start();
    for _ in 0..5000 {
        assert!(decayer.observe(0, 500));
    }
    for _ in 0..5000 {
        assert!(decayer.observe(500, 0));
    }
    // The right channel was quiet for long; the left one starts its run now.
    for _ in 0..QUIET_FRAMES - 1 {
        assert!(decayer.observe(0, 0));
    }
    assert!(!decayer.observe(0, 0));
}

#[test]
fn a_loud_frame_restarts_the_quiet_run() {
    let mut decayer = Decayer::new(1_000_000);
    decayer.start();
    for _ in 0..QUIET_FRAMES - 1 {
        assert!(decayer.observe(0, 0));
    }
    assert!(decayer.observe(2, 0));
    for _ in 0..QUIET_FRAMES - 1 {
        assert!(decayer.observe(0, 0));
    }
    assert!(!decayer.observe(0, 0));
    assert_eq!(decayer.watched(), 2 * QUIET_FRAMES);
}

#[test]
fn a_detector_with_no_room_never_fades() {
    let mut decayer = Decayer::new(0);
    decayer.start();
    assert!(!decayer.decaying());
}

#[test]
fn a_detector_can_be_started_again() {
    let mut decayer = Decayer::new(3);
    decayer.start();
    decayer.observe(9, 9);
    decayer.observe(9, 9);
    assert!(!decayer.observe(9, 9));
    decayer.start();
    assert!(decayer.decaying());
    assert_eq!(decayer.watched(), 0);
}

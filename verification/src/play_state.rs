use vstd::prelude::*;

verus! {

/// The phase of live playback.
#[derive(Clone, Copy, Debug, PartialEq, Eq, Structural)]
pub enum PlayState {
    /// At rest: nothing sounds.
    NotPlaying,
    /// The music plays. The value is the sample that is played next.
    Playing(u64),
    /// No event is left to play and the sound fades.
    Decaying,
}

/// What can move playback from one phase to the next.
#[derive(Clone, Copy, Debug, PartialEq, Eq, Structural)]
pub enum PlaySignal {
    /// A request to play from a sample.
    Play(u64),
    /// A request to stop.
    Stop,
    /// One sample was played and events are left.
    Advance,
    /// The last scheduled event was played.
    EndOfEvents,
    /// The sound has faded.
    Decayed,
}

impl PlayState {
    /// The phase that follows `self` on `signal`. A signal that has no meaning
    /// in a phase leaves the phase as it is.
    pub open spec fn spec_next(self, signal: PlaySignal) -> PlayState {
        match (self, signal) {
            (PlayState::NotPlaying, PlaySignal::Play(start)) => PlayState::Playing(start),
            (PlayState::Playing(_), PlaySignal::Stop) => PlayState::Decaying,
            (PlayState::Playing(_), PlaySignal::EndOfEvents) => PlayState::Decaying,
            (PlayState::Playing(time), PlaySignal::Advance) => PlayState::Playing(
                if time < u64::MAX {
                    (time + 1) as u64
                } else {
                    time
                },
            ),
            (PlayState::Decaying, PlaySignal::Decayed) => PlayState::NotPlaying,
            (state, _) => state,
        }
    }

    /// The phase that follows `self` on `signal`.
    pub fn next(self, signal: PlaySignal) -> (state: PlayState)
        ensures
            state == self.spec_next(signal),
    {
        match (self, signal) {
            (PlayState::NotPlaying, PlaySignal::Play(start)) => PlayState::Playing(start),
            (PlayState::Playing(_), PlaySignal::Stop) => PlayState::Decaying,
            (PlayState::Playing(_), PlaySignal::EndOfEvents) => PlayState::Decaying,
            (PlayState::Playing(time), PlaySignal::Advance) => {
                if time < u64::MAX {
                    PlayState::Playing(time + 1)
                } else {
                    PlayState::Playing(time)
                }
            },
            (PlayState::Decaying, PlaySignal::Decayed) => PlayState::NotPlaying,
            (state, _) => state,
        }
    }

    /// Whether the synthesizer is heard in this phase.
    pub fn is_audible(self) -> (audible: bool)
        ensures
            audible == (self != PlayState::NotPlaying),
    {
        match self {
            PlayState::NotPlaying => false,
            _ => true,
        }
    }
}

/// Playback at rest is left only by a request to play, playing music only for
/// fading sound, and fading sound only for rest: no signal skips a phase.
pub proof fn law_phases_follow_in_order(state: PlayState, signal: PlaySignal)
    ensures
        state == PlayState::NotPlaying ==> (state.spec_next(signal) == PlayState::NotPlaying
            || state.spec_next(signal) is Playing),
        state is Playing ==> (state.spec_next(signal) is Playing || state.spec_next(signal)
            == PlayState::Decaying),
        state == PlayState::Decaying ==> (state.spec_next(signal) == PlayState::Decaying
            || state.spec_next(signal) == PlayState::NotPlaying),
{
}

} // verus!

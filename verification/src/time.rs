use vstd::prelude::*;

verus! {

/// The number of pulses in a quarter note.
pub const PPQ: u64 = 192;

/// The tempo of new music, in beats per minute.
pub const DEFAULT_BPM: u64 = 120;

/// The number of samples that `ppq` pulses last at `bpm` beats per minute and
/// `framerate` samples per second, rounded down.
pub open spec fn pulses_in_samples(ppq: u64, bpm: u64, framerate: u32) -> int
    recommends
        bpm > 0,
{
    (ppq as int * 60 * framerate as int) / (bpm as int * PPQ as int)
}

/// `pulses_in_samples`, held to what a `u64` can express.
pub open spec fn spec_ppq_to_samples(ppq: u64, bpm: u64, framerate: u32) -> u64 {
    if pulses_in_samples(ppq, bpm, framerate) > u64::MAX {
        u64::MAX
    } else {
        pulses_in_samples(ppq, bpm, framerate) as u64
    }
}

/// A later pulse is never converted to an earlier sample.
pub proof fn lemma_ppq_to_samples_monotonic(first: u64, second: u64, bpm: u64, framerate: u32)
    requires
        bpm > 0,
        first <= second,
    ensures
        spec_ppq_to_samples(first, bpm, framerate) <= spec_ppq_to_samples(second, bpm, framerate),
{
    let d = bpm as int * PPQ as int;
    let a = first as int * 60 * framerate as int;
    let b = second as int * 60 * framerate as int;
    assert(a <= b) by (nonlinear_arith)
        requires
            first <= second,
            a == first as int * 60 * framerate as int,
            b == second as int * 60 * framerate as int,
    ;
    assert(0 <= a) by (nonlinear_arith)
        requires
            a == first as int * 60 * framerate as int,
    ;
    assert(d > 0) by (nonlinear_arith)
        requires
            bpm > 0,
            d == bpm as int * PPQ as int,
    ;
    vstd::arithmetic::div_mod::lemma_div_is_ordered(a, b, d);
    vstd::arithmetic::div_mod::lemma_div_pos_is_pos(a, d);
}

/// Converts `ppq` pulses at `bpm` beats per minute to samples at `framerate`
/// samples per second. A result too large for a `u64` is `u64::MAX`.
pub fn ppq_to_samples(ppq: u64, bpm: u64, framerate: u32) -> (samples: u64)
    requires
        bpm > 0,
    ensures
        samples == spec_ppq_to_samples(ppq, bpm, framerate),
{
    let pulses: u128 = ppq as u128;
    let rate: u128 = framerate as u128;
    assert(pulses * 60 * rate <= 0xffff_ffff_ffff_ffff * 60 * 0xffff_ffff) by (nonlinear_arith)
        requires
            pulses <= 0xffff_ffff_ffff_ffff,
            rate <= 0xffff_ffff,
    ;
    let numerator: u128 = pulses * 60 * rate;
    let beat: u128 = PPQ as u128;
    assert(beat == 192);
    let denominator: u128 = bpm as u128 * beat;
    let quotient: u128 = numerator / denominator;
    if quotient > u64::MAX as u128 {
        u64::MAX
    } else {
        quotient as u64
    }
}

/// The tempo of the music and the places in it, in pulses.
pub struct Time {
    bpm: u64,
    /// Where playback starts.
    playback: u64,
    /// Where new notes are put.
    cursor: u64,
}

impl Time {
    #[verifier::type_invariant]
    spec fn positive_tempo(&self) -> bool {
        self.bpm > 0
    }

    /// The tempo, in beats per minute.
    pub closed spec fn spec_bpm(&self) -> u64 {
        self.bpm
    }

    /// The start of playback, in pulses.
    pub closed spec fn spec_playback(&self) -> u64 {
        self.playback
    }

    /// The cursor, in pulses.
    pub closed spec fn spec_cursor(&self) -> u64 {
        self.cursor
    }

    /// Time at `bpm` beats per minute, with the cursor and playback at the
    /// start. There is no time at a tempo of zero.
    pub fn new(bpm: u64) -> (time: Option<Time>)
        ensures
            bpm == 0 <==> time.is_none(),
            time matches Some(t) ==> t.spec_bpm() == bpm && t.spec_playback() == 0
                && t.spec_cursor() == 0,
    {
        if bpm == 0 {
            None
        } else {
            Some(Time { bpm, playback: 0, cursor: 0 })
        }
    }

    /// The tempo, in beats per minute: never zero.
    #[verifier::when_used_as_spec(spec_bpm)]
    pub fn bpm(&self) -> (bpm: u64)
        ensures
            bpm == self.spec_bpm(),
            bpm > 0,
    {
        proof {
            use_type_invariant(self);
        }
        self.bpm
    }

    /// The start of playback, in pulses.
    #[verifier::when_used_as_spec(spec_playback)]
    pub fn playback(&self) -> (playback: u64)
        ensures
            playback == self.spec_playback(),
    {
        self.playback
    }

    /// The cursor, in pulses.
    #[verifier::when_used_as_spec(spec_cursor)]
    pub fn cursor(&self) -> (cursor: u64)
        ensures
            cursor == self.spec_cursor(),
    {
        self.cursor
    }

    /// Sets the tempo. A tempo of zero is refused and changes nothing.
    pub fn set_bpm(&mut self, bpm: u64) -> (changed: bool)
        ensures
            changed == (bpm > 0),
            final(self).spec_bpm() == if bpm > 0 {
                bpm
            } else {
                old(self).spec_bpm()
            },
            final(self).spec_playback() == old(self).spec_playback(),
            final(self).spec_cursor() == old(self).spec_cursor(),
    {
        if bpm > 0 {
            self.bpm = bpm;
            true
        } else {
            false
        }
    }

    /// Moves the start of playback.
    pub fn set_playback(&mut self, playback: u64)
        ensures
            final(self).spec_playback() == playback,
            final(self).spec_bpm() == old(self).spec_bpm(),
            final(self).spec_cursor() == old(self).spec_cursor(),
    {
        proof {
            use_type_invariant(&*self);
        }
        self.playback = playback;
    }

    /// Moves the cursor.
    pub fn set_cursor(&mut self, cursor: u64)
        ensures
            final(self).spec_cursor() == cursor,
            final(self).spec_bpm() == old(self).spec_bpm(),
            final(self).spec_playback() == old(self).spec_playback(),
    {
        proof {
            use_type_invariant(&*self);
        }
        self.cursor = cursor;
    }

    /// Converts a time in pulses to a time in samples at `framerate` samples
    /// per second. A result too large for a `u64` is `u64::MAX`.
    pub fn ppq_to_samples(&self, ppq: u64, framerate: u32) -> (samples: u64)
        ensures
            samples == spec_ppq_to_samples(ppq, self.spec_bpm(), framerate),
    {
        proof {
            use_type_invariant(self);
        }
        ppq_to_samples(ppq, self.bpm, framerate)
    }
}

} // verus!

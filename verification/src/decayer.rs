use vstd::prelude::*;

verus! {

/// A sample is quiet when it is no further than this from zero.
pub const SILENCE: u16 = 1;

/// The sound has faded once this many frames in a row were quiet.
pub const QUIET_FRAMES: u64 = 2048;

/// Whether `sample` is quiet.
pub open spec fn spec_is_quiet(sample: i16) -> bool {
    -(SILENCE as int) <= sample as int <= SILENCE as int
}

/// Whether `sample` is quiet.
#[verifier::when_used_as_spec(spec_is_quiet)]
pub fn is_quiet(sample: i16) -> (quiet: bool)
    ensures
        quiet == spec_is_quiet(sample),
{
    let silence = SILENCE as i16;
    sample >= -silence && sample <= silence
}

/// What the decay detector knows, as plain numbers.
pub struct DecayModel {
    /// The number of frames it will watch at most.
    pub limit: nat,
    /// The number of frames it has watched.
    pub watched: nat,
    /// The quiet frames in a row on the left channel, up to `QUIET_FRAMES`.
    pub left_run: nat,
    /// The quiet frames in a row on the right channel, up to `QUIET_FRAMES`.
    pub right_run: nat,
    /// Whether the sound still fades.
    pub decaying: bool,
}

/// A run of quiet frames after one more frame, counted up to `QUIET_FRAMES`.
pub open spec fn run_after(run: nat, quiet: bool) -> nat {
    if !quiet {
        0
    } else if run < QUIET_FRAMES {
        run + 1
    } else {
        run
    }
}

impl DecayModel {
    /// The detector as it starts to watch for at most `limit` frames.
    pub open spec fn started(limit: nat) -> DecayModel {
        DecayModel { limit, watched: 0, left_run: 0, right_run: 0, decaying: limit > 0 }
    }

    /// The detector after a frame. Once the sound has faded, frames change
    /// nothing. While it fades, the frame is counted, and the sound has faded
    /// with it if both channels were quiet for `QUIET_FRAMES` frames in a row,
    /// or if `limit` frames were watched.
    pub open spec fn observe(self, left: i16, right: i16) -> DecayModel {
        if !self.decaying {
            self
        } else {
            let watched = self.watched + 1;
            let left_run = run_after(self.left_run, spec_is_quiet(left));
            let right_run = run_after(self.right_run, spec_is_quiet(right));
            DecayModel {
                limit: self.limit,
                watched,
                left_run,
                right_run,
                decaying: !(left_run >= QUIET_FRAMES && right_run >= QUIET_FRAMES) && watched
                    < self.limit,
            }
        }
    }

    /// The detector after the frames of `frames`, first to last.
    pub open spec fn observe_all(self, frames: Seq<(i16, i16)>) -> DecayModel
        decreases frames.len(),
    {
        if frames.len() == 0 {
            self
        } else {
            self.observe_all(frames.drop_last()).observe(frames.last().0, frames.last().1)
        }
    }

    /// What holds of a detector at all times.
    pub open spec fn wf(self) -> bool {
        &&& self.watched <= self.limit
        &&& self.left_run <= QUIET_FRAMES
        &&& self.right_run <= QUIET_FRAMES
        &&& self.left_run <= self.watched
        &&& self.right_run <= self.watched
        &&& self.decaying ==> self.watched < self.limit
        &&& self.decaying ==> !(self.left_run >= QUIET_FRAMES && self.right_run >= QUIET_FRAMES)
    }
}

/// Watching keeps a detector well formed, never counts more frames than were
/// shown, and never counts beyond the limit.
pub proof fn lemma_observe_all(start: DecayModel, frames: Seq<(i16, i16)>)
    requires
        start.wf(),
    ensures
        start.observe_all(frames).wf(),
        start.observe_all(frames).limit == start.limit,
        start.observe_all(frames).watched <= start.watched + frames.len(),
        start.observe_all(frames).decaying ==> start.observe_all(frames).watched == start.watched
            + frames.len(),
        start.observe_all(frames).decaying ==> start.decaying,
    decreases frames.len(),
{
    if frames.len() > 0 {
        lemma_observe_all(start, frames.drop_last());
    }
}

/// Whatever the synthesizer plays, be it never silent: a detector that was
/// started with a limit has stopped once it was shown that many frames, and it
/// never counts more frames than the limit.
pub proof fn law_decay_is_bounded(limit: nat, frames: Seq<(i16, i16)>)
    ensures
        DecayModel::started(limit).observe_all(frames).watched <= limit,
        frames.len() >= limit ==> !DecayModel::started(limit).observe_all(frames).decaying,
{
    lemma_observe_all(DecayModel::started(limit), frames);
}

/// While it is shown nothing but quiet frames, a detector stops with the
/// frame that completes `QUIET_FRAMES` of them, or at its limit if that is less.
pub proof fn law_decay_ends_in_silence(limit: nat, frames: Seq<(i16, i16)>)
    requires
        forall|i: int|
            0 <= i < frames.len() ==> spec_is_quiet((#[trigger] frames[i]).0) && spec_is_quiet(
                frames[i].1,
            ),
    ensures
        DecayModel::started(limit).observe_all(frames).decaying <==> (frames.len() < limit
            && frames.len() < QUIET_FRAMES),
        DecayModel::started(limit).observe_all(frames).decaying ==> DecayModel::started(
            limit,
        ).observe_all(frames).left_run == frames.len() && DecayModel::started(limit).observe_all(
            frames,
        ).right_run == frames.len(),
    decreases frames.len(),
{
    let start = DecayModel::started(limit);
    lemma_observe_all(start, frames);
    if frames.len() > 0 {
        let front = frames.drop_last();
        assert forall|i: int| 0 <= i < front.len() implies spec_is_quiet((#[trigger] front[i]).0)
            && spec_is_quiet(front[i].1) by {
            assert(front[i] == frames[i]);
        }
        law_decay_ends_in_silence(limit, front);
        lemma_observe_all(start, front);
        assert(spec_is_quiet(frames[frames.len() - 1].0));
    }
}

/// Decides when the sound that is left after the last event has faded.
///
/// Both channels are watched. A channel has faded once `QUIET_FRAMES` of its
/// samples in a row were quiet, and the sound once both channels have. A sound
/// that does not fade is cut off at the limit that the detector was given.
pub struct Decayer {
    limit: u64,
    watched: u64,
    left_run: u64,
    right_run: u64,
    decaying: bool,
}

impl View for Decayer {
    type V = DecayModel;

    closed spec fn view(&self) -> DecayModel {
        DecayModel {
            limit: self.limit as nat,
            watched: self.watched as nat,
            left_run: self.left_run as nat,
            right_run: self.right_run as nat,
            decaying: self.decaying,
        }
    }
}

impl Decayer {
    #[verifier::type_invariant]
    spec fn well_formed(&self) -> bool {
        self@.wf()
    }

    /// A detector that watches at most `limit` frames each time it is
    /// started. It is at rest until then.
    pub fn new(limit: u64) -> (decayer: Decayer)
        ensures
            decayer@ == (DecayModel { decaying: false, ..DecayModel::started(limit as nat) }),
    {
        Decayer { limit, watched: 0, left_run: 0, right_run: 0, decaying: false }
    }

    /// Whether the sound still fades.
    pub fn decaying(&self) -> (decaying: bool)
        ensures
            decaying == self@.decaying,
    {
        self.decaying
    }

    /// The number of frames watched since the detector was started.
    pub fn watched(&self) -> (watched: u64)
        ensures
            watched == self@.watched,
            watched <= self@.limit,
    {
        proof {
            use_type_invariant(self);
        }
        self.watched
    }

    /// The number of frames that the detector watches at most.
    pub fn limit(&self) -> (limit: u64)
        ensures
            limit == self@.limit,
    {
        self.limit
    }

    /// Starts to watch: the sound fades from now on, unless the limit is zero.
    pub fn start(&mut self)
        ensures
            final(self)@ == DecayModel::started(old(self)@.limit),
    {
        proof {
            use_type_invariant(&*self);
        }
        *self = Decayer {
            limit: self.limit,
            watched: 0,
            left_run: 0,
            right_run: 0,
            decaying: self.limit > 0,
        };
    }

    /// Shows the detector the next frame and returns whether the sound still
    /// fades.
    pub fn observe(&mut self, left: i16, right: i16) -> (decaying: bool)
        ensures
            final(self)@ == old(self)@.observe(left, right),
            decaying == final(self)@.decaying,
    {
        proof {
            use_type_invariant(&*self);
        }
        if !self.decaying {
            return false;
        }
        let watched: u64 = self.watched + 1;
        let left_run: u64 = Self::count(self.left_run, is_quiet(left));
        let right_run: u64 = Self::count(self.right_run, is_quiet(right));
        let decaying = !(left_run >= QUIET_FRAMES && right_run >= QUIET_FRAMES) && watched
            < self.limit;
        *self = Decayer { limit: self.limit, watched, left_run, right_run, decaying };
        decaying
    }

    fn count(run: u64, quiet: bool) -> (after: u64)
        requires
            run <= QUIET_FRAMES,
        ensures
            after == run_after(run as nat, quiet),
    {
        if !quiet {
            0
        } else if run < QUIET_FRAMES {
            run + 1
        } else {
            run
        }
    }
}

} // verus!

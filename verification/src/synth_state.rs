use crate::midi_event::MAX_VOLUME;
use vstd::prelude::*;

verus! {

/// The instrument that is assigned to a channel.
pub struct Program {
    /// The path of the bank file.
    pub path: String,
    /// The number of banks in the file.
    pub num_banks: usize,
    /// The position of the bank among the banks of the file.
    pub bank_index: usize,
    /// The number of the bank.
    pub bank: u32,
    /// The number of presets in the bank.
    pub num_presets: usize,
    /// The position of the preset among the presets of the bank.
    pub preset_index: usize,
    /// The name of the preset.
    pub preset_name: String,
    /// The number of the preset.
    pub preset: u8,
}

/// A `Program` as plain values.
pub struct ProgramView {
    pub path: Seq<char>,
    pub num_banks: nat,
    pub bank_index: nat,
    pub bank: u32,
    pub num_presets: nat,
    pub preset_index: nat,
    pub preset_name: Seq<char>,
    pub preset: u8,
}

impl View for Program {
    type V = ProgramView;

    open spec fn view(&self) -> ProgramView {
        ProgramView {
            path: self.path@,
            num_banks: self.num_banks as nat,
            bank_index: self.bank_index as nat,
            bank: self.bank,
            num_presets: self.num_presets as nat,
            preset_index: self.preset_index as nat,
            preset_name: self.preset_name@,
            preset: self.preset,
        }
    }
}

impl Program {
    /// A copy of the program.
    pub fn duplicate(&self) -> (copy: Program)
        ensures
            copy@ == self@,
    {
        Program {
            path: self.path.clone(),
            num_banks: self.num_banks,
            bank_index: self.bank_index,
            bank: self.bank,
            num_presets: self.num_presets,
            preset_index: self.preset_index,
            preset_name: self.preset_name.clone(),
            preset: self.preset,
        }
    }
}

/// A `HashMap` of hashbrown from channels to the program of each. What it
/// holds is known only by `program_map_contents`.
#[verifier::external_body]
pub struct ProgramMap {
    map: hashbrown::HashMap<u8, Program>,
}

/// What a `ProgramMap` holds: for each channel in it, the program that was
/// stored with it.
pub uninterp spec fn program_map_contents(map: ProgramMap) -> Map<u8, ProgramView>;

/// `HashMap::new` of hashbrown makes an empty map.
#[verifier::external_body]
fn program_map_new() -> (created: ProgramMap)
    ensures
        program_map_contents(created) == (Map::<u8, ProgramView>::empty()),
{
    ProgramMap { map: hashbrown::HashMap::new() }
}

/// `HashMap::insert` of hashbrown stores the value under the key, in place of
/// the value that was stored under it, if any, which it returns.
#[verifier::external_body]
fn program_map_insert(map: &mut ProgramMap, channel: u8, program: Program) -> (previous: Option<
    Program,
>)
    ensures
        program_map_contents(*final(map)) == program_map_contents(*old(map)).insert(
            channel,
            program@,
        ),
        match previous {
            Some(p) => program_map_contents(*old(map)).contains_key(channel) && p@
                == program_map_contents(*old(map))[channel],
            None => !program_map_contents(*old(map)).contains_key(channel),
        },
{
    map.map.insert(channel, program)
}

/// `HashMap::remove` of hashbrown takes out the value that is stored under
/// the key, if any, and returns it.
#[verifier::external_body]
fn program_map_remove(map: &mut ProgramMap, channel: u8) -> (removed: Option<Program>)
    ensures
        program_map_contents(*final(map)) == program_map_contents(*old(map)).remove(channel),
        match removed {
            Some(p) => program_map_contents(*old(map)).contains_key(channel) && p@
                == program_map_contents(*old(map))[channel],
            None => !program_map_contents(*old(map)).contains_key(channel),
        },
{
    map.map.remove(&channel)
}

/// `HashMap::get` of hashbrown returns the value that is stored under the
/// key, if any.
#[verifier::external_body]
fn program_map_get(map: &ProgramMap, channel: u8) -> (program: Option<&Program>)
    ensures
        match program {
            Some(p) => program_map_contents(*map).contains_key(channel) && p@
                == program_map_contents(*map)[channel],
            None => !program_map_contents(*map).contains_key(channel),
        },
{
    map.map.get(&channel)
}

/// What the synthesizer was told, as plain values.
pub struct SynthStateView {
    /// The program of each channel that has one.
    pub programs: Map<u8, ProgramView>,
    /// The master gain, a fraction of `MAX_VOLUME`.
    pub gain: u8,
}

/// A record of what the synthesizer was told: the program of each channel and
/// the master gain.
pub struct SynthState {
    programs: ProgramMap,
    gain: u8,
}

impl View for SynthState {
    type V = SynthStateView;

    closed spec fn view(&self) -> SynthStateView {
        SynthStateView { programs: program_map_contents(self.programs), gain: self.gain }
    }
}

impl SynthState {
    /// No channel has a program and the gain is full.
    pub fn new() -> (state: SynthState)
        ensures
            state@.programs == Map::<u8, ProgramView>::empty(),
            state@.gain == MAX_VOLUME,
    {
        SynthState { programs: program_map_new(), gain: MAX_VOLUME }
    }

    /// The master gain.
    pub fn gain(&self) -> (gain: u8)
        ensures
            gain == self@.gain,
    {
        self.gain
    }

    /// The program of `channel`, if it has one.
    pub fn get_program(&self, channel: u8) -> (program: Option<&Program>)
        ensures
            match program {
                Some(p) => self@.programs.contains_key(channel) && p@ == self@.programs[channel],
                None => !self@.programs.contains_key(channel),
            },
    {
        program_map_get(&self.programs, channel)
    }

    /// Records the master gain.
    pub fn set_gain(&mut self, gain: u8)
        ensures
            final(self)@ == (SynthStateView { gain, ..old(self)@ }),
    {
        self.gain = gain;
    }

    /// Records `program` as the program of `channel`, in place of the one it
    /// had.
    pub fn set_program(&mut self, channel: u8, program: Program)
        ensures
            final(self)@ == (SynthStateView {
                programs: old(self)@.programs.insert(channel, program@),
                ..old(self)@
            }),
    {
        let _ = program_map_insert(&mut self.programs, channel, program);
    }

    /// Forgets the program of `channel`.
    pub fn unset_program(&mut self, channel: u8)
        ensures
            final(self)@ == (SynthStateView {
                programs: old(self)@.programs.remove(channel),
                ..old(self)@
            }),
    {
        let _ = program_map_remove(&mut self.programs, channel);
    }
}

} // verus!

use crate::synth::{add_font, font_has_preset, font_presets};
use vstd::prelude::*;

verus! {

/// The highest bank number that a bank file can define.
pub const MAX_BANK: u32 = 128;

/// A preset number is less than this.
pub const NUM_PRESETS: u8 = 128;

/// A `HashMap` of hashbrown from bank numbers to the preset numbers of each
/// bank. What it holds is known only by `bank_map_contents`.
#[verifier::external_body]
pub struct BankMap {
    map: hashbrown::HashMap<u32, Vec<u8>>,
}

/// What a `BankMap` holds: for each bank number in it, the preset numbers
/// that were stored with it.
pub uninterp spec fn bank_map_contents(map: BankMap) -> Map<u32, Seq<u8>>;

/// `HashMap::new` of hashbrown makes an empty map.
#[verifier::external_body]
fn bank_map_new() -> (created: BankMap)
    ensures
        bank_map_contents(created) == (Map::<u32, Seq<u8>>::empty()),
{
    BankMap { map: hashbrown::HashMap::new() }
}

/// `HashMap::insert` of hashbrown stores the value under the key, in place of
/// the value that was stored under it, if any.
#[verifier::external_body]
fn bank_map_insert(map: BankMap, bank: u32, presets: Vec<u8>) -> (after: BankMap)
    ensures
        bank_map_contents(after) == bank_map_contents(map).insert(bank, presets@),
{
    let mut map = map;
    map.map.insert(bank, presets);
    map
}

/// `HashMap::get` of hashbrown returns the value that is stored under the
/// key, if any.
#[verifier::external_body]
fn bank_map_get(map: &BankMap, bank: u32) -> (presets: Option<&Vec<u8>>)
    ensures
        match presets {
            Some(p) => bank_map_contents(*map).contains_key(bank) && p@ == bank_map_contents(
                *map,
            )[bank],
            None => !bank_map_contents(*map).contains_key(bank),
        },
{
    map.map.get(&bank)
}

/// A list of preset numbers as a catalog holds it: not empty, in ascending
/// order without repetition, each less than `NUM_PRESETS`.
pub open spec fn is_preset_list(presets: Seq<u8>) -> bool {
    &&& presets.len() > 0
    &&& forall|i: int| 0 <= i < presets.len() ==> #[trigger] presets[i] < NUM_PRESETS
    &&& forall|i: int, j: int| 0 <= i < j < presets.len() ==> presets[i] < presets[j]
}

/// A catalog holds bank numbers up to `MAX_BANK`, each with a preset list.
pub open spec fn is_catalog(banks: Map<u32, Seq<u8>>) -> bool {
    forall|bank: u32| #[trigger]
        banks.contains_key(bank) ==> bank <= MAX_BANK && is_preset_list(banks[bank])
}

/// The bank numbers of `banks` that are less than `limit`, in ascending order.
pub open spec fn banks_below(banks: Map<u32, Seq<u8>>, limit: nat) -> Seq<u32>
    decreases limit,
{
    if limit == 0 {
        Seq::<u32>::empty()
    } else if banks.contains_key((limit - 1) as u32) {
        banks_below(banks, (limit - 1) as nat).push((limit - 1) as u32)
    } else {
        banks_below(banks, (limit - 1) as nat)
    }
}

/// The bank numbers of a catalog, in ascending order.
pub open spec fn bank_numbers(banks: Map<u32, Seq<u8>>) -> Seq<u32> {
    banks_below(banks, (MAX_BANK + 1) as nat)
}

/// `banks_below` lists each bank number below the limit once, in ascending
/// order, and nothing else.
pub proof fn lemma_banks_below(banks: Map<u32, Seq<u8>>, limit: nat)
    requires
        limit <= MAX_BANK + 1,
    ensures
        banks_below(banks, limit).len() <= limit,
        forall|i: int|
            0 <= i < banks_below(banks, limit).len() ==> (#[trigger] banks_below(banks, limit)[i])
                < limit && banks.contains_key(banks_below(banks, limit)[i]),
        forall|i: int, j: int|
            0 <= i < j < banks_below(banks, limit).len() ==> banks_below(banks, limit)[i]
                < banks_below(banks, limit)[j],
        forall|bank: u32|
            bank < limit && banks.contains_key(bank) ==> #[trigger] banks_below(
                banks,
                limit,
            ).contains(bank),
    decreases limit,
{
    if limit > 0 {
        let below = banks_below(banks, (limit - 1) as nat);
        let all = banks_below(banks, limit);
        lemma_banks_below(banks, (limit - 1) as nat);
        assert forall|bank: u32| bank < limit && banks.contains_key(bank) implies #[trigger] all.contains(
            bank,
        ) by {
            if bank == limit - 1 {
                assert(all[all.len() - 1] == bank);
            } else {
                assert(below.contains(bank));
                let i = choose|i: int| 0 <= i < below.len() && below[i] == bank;
                assert(all[i] == bank);
            }
        }
    }
}

/// The position of a bank of the catalog in `bank_numbers` is the number of
/// banks with a lesser number.
pub proof fn lemma_bank_position(banks: Map<u32, Seq<u8>>, bank: u32)
    requires
        bank <= MAX_BANK,
        banks.contains_key(bank),
    ensures
        banks_below(banks, bank as nat).len() < bank_numbers(banks).len(),
        bank_numbers(banks)[banks_below(banks, bank as nat).len() as int] == bank,
{
    lemma_banks_grow(banks, (bank + 1) as nat, (MAX_BANK + 1) as nat);
    let below = banks_below(banks, bank as nat);
    let upto = banks_below(banks, (bank + 1) as nat);
    assert(upto == below.push(bank));
    assert(upto[below.len() as int] == bank);
    assert(bank_numbers(banks).subrange(0, upto.len() as int)[below.len() as int] == bank);
}

/// The bank numbers below a limit are the front of those below a higher limit.
proof fn lemma_banks_grow(banks: Map<u32, Seq<u8>>, low: nat, high: nat)
    requires
        low <= high,
    ensures
        banks_below(banks, low).len() <= banks_below(banks, high).len(),
        banks_below(banks, low) == banks_below(banks, high).subrange(
            0,
            banks_below(banks, low).len() as int,
        ),
    decreases high - low,
{
    if low < high {
        lemma_banks_grow(banks, low, (high - 1) as nat);
        assert(banks_below(banks, low) =~= banks_below(banks, high).subrange(
            0,
            banks_below(banks, low).len() as int,
        ));
    } else {
        assert(banks_below(banks, low) =~= banks_below(banks, high).subrange(
            0,
            banks_below(banks, low).len() as int,
        ));
    }
}

/// Where a preset stands in a catalog.
#[derive(Clone, Copy, Debug, PartialEq, Eq, Structural)]
pub struct ProgramPosition {
    /// The number of banks in the catalog.
    pub num_banks: usize,
    /// The position of the bank among the banks in ascending order.
    pub bank_index: usize,
    /// The number of presets in the bank.
    pub num_presets: usize,
    /// The position of the preset among the presets of the bank in ascending
    /// order.
    pub preset_index: usize,
}

/// The banks of one instrument-bank file, each with its presets.
pub struct BankCatalog {
    banks: BankMap,
}

impl View for BankCatalog {
    type V = Map<u32, Seq<u8>>;

    closed spec fn view(&self) -> Map<u32, Seq<u8>> {
        bank_map_contents(self.banks)
    }
}

impl BankCatalog {
    #[verifier::type_invariant]
    spec fn well_formed(&self) -> bool {
        is_catalog(bank_map_contents(self.banks))
    }

    /// A catalog without banks.
    pub fn new() -> (catalog: BankCatalog)
        ensures
            catalog@ == Map::<u32, Seq<u8>>::empty(),
    {
        BankCatalog { banks: bank_map_new() }
    }

    /// Whether `presets` is a preset list.
    pub fn check_presets(presets: &Vec<u8>) -> (valid: bool)
        ensures
            valid == is_preset_list(presets@),
    {
        let n: usize = presets.len();
        if n == 0 {
            return false;
        }
        if presets[0] >= NUM_PRESETS {
            return false;
        }
        let mut i: usize = 1;
        while i < n
            invariant
                n == presets.len(),
                1 <= i <= n,
                forall|k: int| 0 <= k < i ==> #[trigger] presets[k] < NUM_PRESETS,
                forall|k: int| 0 <= k < i - 1 ==> #[trigger] presets[k] < presets[k + 1],
            decreases n - i,
        {
            if presets[i] >= NUM_PRESETS || presets[i - 1] >= presets[i] {
                assert(!(presets[i - 1] < presets[i as int]) || !(presets[i as int] < NUM_PRESETS));
                return false;
            }
            i += 1;
        }
        proof {
            lemma_steps_ascend(presets@);
        }
        true
    }

    /// The catalog with one more bank and its presets, where `bank` is no more
    /// than `MAX_BANK`, `presets` is a preset list and the catalog has no such
    /// bank yet; else the catalog as it is.
    pub fn with_bank(self, bank: u32, presets: Vec<u8>) -> (catalog: BankCatalog)
        ensures
            catalog@ == if bank <= MAX_BANK && is_preset_list(presets@) && !self@.contains_key(bank) {
                self@.insert(bank, presets@)
            } else {
                self@
            },
    {
        proof {
            use_type_invariant(&self);
        }
        if bank > MAX_BANK || !Self::check_presets(&presets) {
            return self;
        }
        if bank_map_get(&self.banks, bank).is_some() {
            return self;
        }
        BankCatalog { banks: bank_map_insert(self.banks, bank, presets) }
    }

    /// Whether the catalog has a bank with this number.
    pub fn has_bank(&self, bank: u32) -> (has: bool)
        ensures
            has == self@.contains_key(bank),
    {
        bank_map_get(&self.banks, bank).is_some()
    }

    /// The presets of a bank, in ascending order, if the catalog has the bank.
    pub fn get_presets(&self, bank: u32) -> (presets: Option<&Vec<u8>>)
        ensures
            match presets {
                Some(p) => self@.contains_key(bank) && p@ == self@[bank] && is_preset_list(p@),
                None => !self@.contains_key(bank),
            },
    {
        proof {
            use_type_invariant(self);
        }
        bank_map_get(&self.banks, bank)
    }

    /// The bank numbers of the catalog, in ascending order.
    pub fn get_banks(&self) -> (banks: Vec<u32>)
        ensures
            banks@ == bank_numbers(self@),
            is_catalog(self@),
    {
        proof {
            use_type_invariant(self);
        }
        let mut banks: Vec<u32> = Vec::new();
        let mut bank: u32 = 0;
        while bank <= MAX_BANK
            invariant
                bank <= MAX_BANK + 1,
                banks@ == banks_below(self@, bank as nat),
            decreases MAX_BANK + 1 - bank,
        {
            if self.has_bank(bank) {
                banks.push(bank);
            }
            bank += 1;
        }
        banks
    }

    /// The lowest preset of the lowest bank: none in a catalog without banks.
    pub fn default_program(&self) -> (program: Option<(u32, u8)>)
        ensures
            is_catalog(self@),
            program.is_none() <==> self@.dom() =~= Set::<u32>::empty(),
            program matches Some((bank, preset)) ==> {
                &&& self@.contains_key(bank)
                &&& forall|other: u32| self@.contains_key(other) ==> bank <= other
                &&& self@[bank].contains(preset)
                &&& forall|i: int| 0 <= i < self@[bank].len() ==> preset <= #[trigger] self@[bank][i]
                &&& bank == bank_numbers(self@)[0]
                &&& preset == self@[bank][0]
            },
    {
        proof {
            use_type_invariant(self);
        }
        let mut bank: u32 = 0;
        while bank <= MAX_BANK
            invariant
                bank <= MAX_BANK + 1,
                is_catalog(self@),
                forall|other: u32| other < bank ==> !self@.contains_key(other),
            decreases MAX_BANK + 1 - bank,
        {
            match self.get_presets(bank) {
                Some(presets) => {
                    let preset = presets[0];
                    proof {
                        assert(self@[bank][0] == preset);
                        assert(self@.dom().contains(bank));
                        assert(banks_below(self@, bank as nat) =~= Seq::<u32>::empty()) by {
                            lemma_banks_below(self@, bank as nat);
                            if banks_below(self@, bank as nat).len() > 0 {
                                assert(self@.contains_key(banks_below(self@, bank as nat)[0]));
                            }
                        }
                        lemma_bank_position(self@, bank);
                    }
                    return Some((bank, preset));
                },
                None => {},
            }
            bank += 1;
        }
        proof {
            assert forall|other: u32| !self@.dom().contains(other) by {
                if self@.contains_key(other) {
                    assert(other <= MAX_BANK);
                }
            }
        }
        None
    }

    /// The preset at position `preset_index` of the bank at position
    /// `bank_index`, both counted in ascending order: none where there is no
    /// such bank or no such preset in it.
    pub fn program_at(&self, bank_index: usize, preset_index: usize) -> (program: Option<(u32, u8)>)
        ensures
            is_catalog(self@),
            program.is_some() <==> (bank_index < bank_numbers(self@).len() && preset_index
                < self@[bank_numbers(self@)[bank_index as int]].len()),
            program matches Some((bank, preset)) ==> {
                &&& bank == bank_numbers(self@)[bank_index as int]
                &&& self@.contains_key(bank)
                &&& preset == self@[bank][preset_index as int]
            },
    {
        let banks = self.get_banks();
        if bank_index >= banks.len() {
            return None;
        }
        let bank = banks[bank_index];
        proof {
            lemma_banks_below(self@, (MAX_BANK + 1) as nat);
        }
        match self.get_presets(bank) {
            Some(presets) => {
                if preset_index < presets.len() {
                    Some((bank, presets[preset_index]))
                } else {
                    None
                }
            },
            None => None,
        }
    }

    /// Where `preset` of `bank` stands in the catalog: none where the catalog
    /// has no such bank or the bank no such preset.
    pub fn locate(&self, bank: u32, preset: u8) -> (position: Option<ProgramPosition>)
        ensures
            is_catalog(self@),
            position.is_some() <==> (self@.contains_key(bank) && self@[bank].contains(preset)),
            position matches Some(p) ==> {
                &&& p.num_banks == bank_numbers(self@).len()
                &&& p.bank_index < p.num_banks
                &&& bank_numbers(self@)[p.bank_index as int] == bank
                &&& p.num_presets == self@[bank].len()
                &&& p.preset_index < p.num_presets
                &&& self@[bank][p.preset_index as int] == preset
            },
    {
        proof {
            use_type_invariant(self);
        }
        let presets = match self.get_presets(bank) {
            Some(presets) => presets,
            None => {
                return None;
            },
        };
        let mut preset_index: usize = 0;
        while preset_index < presets.len() && presets[preset_index] != preset
            invariant
                preset_index <= presets.len(),
                forall|k: int| 0 <= k < preset_index ==> presets[k] != preset,
            decreases presets.len() - preset_index,
        {
            preset_index += 1;
        }
        if preset_index >= presets.len() {
            return None;
        }
        let banks = self.get_banks();
        let mut bank_index: usize = 0;
        proof {
            lemma_banks_below(self@, (MAX_BANK + 1) as nat);
            assert(banks@.contains(bank));
        }
        while bank_index < banks.len() && banks[bank_index] != bank
            invariant
                bank_index <= banks.len(),
                banks@.contains(bank),
                forall|k: int| 0 <= k < bank_index ==> banks[k] != bank,
            decreases banks.len() - bank_index,
        {
            bank_index += 1;
        }
        Some(
            ProgramPosition {
                num_banks: banks.len(),
                bank_index,
                num_presets: presets.len(),
                preset_index,
            },
        )
    }
}

/// A sequence whose every item is less than the next is in ascending order.
pub proof fn lemma_steps_ascend(s: Seq<u8>)
    requires
        forall|k: int| 0 <= k < s.len() - 1 ==> #[trigger] s[k] < s[k + 1],
    ensures
        forall|i: int, j: int| 0 <= i < j < s.len() ==> s[i] < s[j],
{
    assert forall|i: int, j: int| 0 <= i < j < s.len() implies s[i] < s[j] by {
        lemma_ascend_between(s, i, j);
    }
}

proof fn lemma_ascend_between(s: Seq<u8>, i: int, j: int)
    requires
        forall|k: int| 0 <= k < s.len() - 1 ==> #[trigger] s[k] < s[k + 1],
        0 <= i < j < s.len(),
    ensures
        s[i] < s[j],
    decreases j - i,
{
    if i + 1 < j {
        lemma_ascend_between(s, i, j - 1);
    }
    assert(s[j - 1] < s[j - 1 + 1]);
}

/// The preset numbers less than `limit` that `defined` holds for `bank`, in
/// ascending order.
pub open spec fn presets_below(defined: Set<(u32, u8)>, bank: u32, limit: nat) -> Seq<u8>
    decreases limit,
{
    if limit == 0 {
        Seq::<u8>::empty()
    } else if defined.contains((bank, (limit - 1) as u8)) {
        presets_below(defined, bank, (limit - 1) as nat).push((limit - 1) as u8)
    } else {
        presets_below(defined, bank, (limit - 1) as nat)
    }
}

/// The catalog of the presets that `defined` holds: each bank up to `MAX_BANK`
/// that has a preset below `NUM_PRESETS`, with those presets in ascending order.
pub open spec fn catalog_of(defined: Set<(u32, u8)>) -> Map<u32, Seq<u8>> {
    catalog_below(defined, (MAX_BANK + 1) as nat)
}

/// `catalog_of`, held to the banks below `limit`.
pub open spec fn catalog_below(defined: Set<(u32, u8)>, limit: nat) -> Map<u32, Seq<u8>> {
    Map::new(
        |bank: u32| bank < limit && presets_below(defined, bank, NUM_PRESETS as nat).len() > 0,
        |bank: u32| presets_below(defined, bank, NUM_PRESETS as nat),
    )
}

/// `presets_below` lists each defined preset below the limit once, in
/// ascending order, and nothing else.
pub proof fn lemma_presets_below(defined: Set<(u32, u8)>, bank: u32, limit: nat)
    requires
        limit <= NUM_PRESETS,
    ensures
        forall|i: int|
            0 <= i < presets_below(defined, bank, limit).len() ==> (#[trigger] presets_below(
                defined,
                bank,
                limit,
            )[i]) < limit && defined.contains((bank, presets_below(defined, bank, limit)[i])),
        forall|i: int, j: int|
            0 <= i < j < presets_below(defined, bank, limit).len() ==> presets_below(
                defined,
                bank,
                limit,
            )[i] < presets_below(defined, bank, limit)[j],
        forall|preset: u8|
            preset < limit && defined.contains((bank, preset)) ==> #[trigger] presets_below(
                defined,
                bank,
                limit,
            ).contains(preset),
    decreases limit,
{
    if limit > 0 {
        let below = presets_below(defined, bank, (limit - 1) as nat);
        let all = presets_below(defined, bank, limit);
        lemma_presets_below(defined, bank, (limit - 1) as nat);
        assert forall|preset: u8|
            preset < limit && defined.contains((bank, preset)) implies #[trigger] all.contains(
            preset,
        ) by {
            if preset == limit - 1 {
                assert(all[all.len() - 1] == preset);
            } else {
                assert(below.contains(preset));
                let i = choose|i: int| 0 <= i < below.len() && below[i] == preset;
                assert(all[i] == preset);
            }
        }
    }
}

/// A bank that the synthesizer has loaded: its handle and its catalog.
pub struct SoundFontBanks {
    /// The handle that the synthesizer gave the bank.
    pub id: oxisynth::SoundFontId,
    /// The banks and their presets.
    pub banks: BankCatalog,
}

impl SoundFontBanks {
    /// Lists the presets that `font` defines, for each bank up to `MAX_BANK`
    /// the presets below `NUM_PRESETS`, and hands `font` to the synthesizer.
    pub fn new(font: oxisynth::SoundFont, synth: &mut oxisynth::Synth) -> (loaded: SoundFontBanks)
        ensures
            loaded.banks@ == catalog_of(font_presets(font)),
    {
        let ghost defined = font_presets(font);
        let mut banks = BankCatalog::new();
        let mut bank: u32 = 0;
        proof {
            assert(banks@ =~= catalog_below(defined, 0));
        }
        while bank <= MAX_BANK
            invariant
                bank <= MAX_BANK + 1,
                defined == font_presets(font),
                banks@ == catalog_below(defined, bank as nat),
            decreases MAX_BANK + 1 - bank,
        {
            let mut presets: Vec<u8> = Vec::new();
            let mut preset: u8 = 0;
            while preset < NUM_PRESETS
                invariant
                    preset <= NUM_PRESETS,
                    defined == font_presets(font),
                    presets@ == presets_below(defined, bank, preset as nat),
                decreases NUM_PRESETS - preset,
            {
                if font_has_preset(&font, bank, preset) {
                    presets.push(preset);
                }
                preset += 1;
            }
            let ghost before = banks@;
            if presets.len() > 0 {
                proof {
                    lemma_presets_below(defined, bank, NUM_PRESETS as nat);
                }
                banks = banks.with_bank(bank, presets);
                proof {
                    assert(banks@ =~= catalog_below(defined, (bank + 1) as nat));
                }
            } else {
                proof {
                    assert(banks@ =~= catalog_below(defined, (bank + 1) as nat));
                }
            }
            bank += 1;
        }
        let id = add_font(synth, font, true);
        SoundFontBanks { id, banks }
    }
}

} // verus!

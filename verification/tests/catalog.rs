use cacophony_audio::soundfont_banks::{BankCatalog, ProgramPosition};
use cacophony_audio::synth_state::{Program, SynthState};

fn catalog() -> BankCatalog {
    BankCatalog::new()
        .with_bank(5, vec![7, 9])
        .with_bank(0, vec![3, 4, 100])
        .with_bank(128, vec![0])
}

#[test]
fn an_empty_catalog_has_no_default() {
    let catalog = BankCatalog::new();
    assert_eq!(catalog.get_banks(), Vec::<u32>::new());
    assert_eq!(catalog.default_program(), None);
    assert_eq!(catalog.program_at(0, 0), None);
    assert_eq!(catalog.locate(0, 0), None);
    assert!(!catalog.has_bank(0));
    assert_eq!(catalog.get_presets(0), None);
}

#[test]
fn the_banks_come_in_ascending_order() {
    assert_eq!(catalog().get_banks(), vec![0, 5, 128]);
    assert!(catalog().has_bank(5));
    assert!(!catalog().has_bank(6));
    assert_eq!(catalog().get_presets(5), Some(&vec![7, 9]));
}

#[test]
fn the_default_is_the_lowest_preset_of_the_lowest_bank() {
    assert_eq!(catalog().default_program(), Some((0, 3)));
    let other = BankCatalog::new().with_bank(128, vec![127]).with_bank(17, vec![90, 91]);
    assert_eq!(other.default_program(), Some((17, 90)));
}

#[test]
fn a_bank_that_is_no_bank_is_not_added() {
    let before = catalog();
    // Too high a bank, no presets, presets out of order, a preset twice, too high a preset,
    // a bank that is there already.
    let after = before
        .with_bank(129, vec![1])
        .with_bank(1, vec![])
        .with_bank(2, vec![5, 4])
        .with_bank(3, vec![5, 5])
        .with_bank(4, vec![128])
        .with_bank(5, vec![1]);
    assert_eq!(after.get_banks(), vec![0, 5, 128]);
    assert_eq!(after.get_presets(5), Some(&vec![7, 9]));
    assert!(!BankCatalog::check_presets(&vec![]));
    assert!(!BankCatalog::check_presets(&vec![5, 4]));
    assert!(!BankCatalog::check_presets(&vec![5, 5]));
    assert!(!BankCatalog::check_presets(&vec![128]));
    assert!(!BankCatalog::check_presets(&vec![1, 2, 200]));
    assert!(BankCatalog::check_presets(&vec![0]));
    assert!(BankCatalog::check_presets(&vec![0, 1, 127]));
}

#[test]
fn a_program_is_found_by_its_places() {
    let catalog = catalog();
    assert_eq!(catalog.program_at(0, 0), Some((0, 3)));
    assert_eq!(catalog.program_at(0, 2), Some((0, 100)));
    assert_eq!(catalog.program_at(1, 1), Some((5, 9)));
    assert_eq!(catalog.program_at(2, 0), Some((128, 0)));
    assert_eq!(catalog.program_at(0, 3), None);
    assert_eq!(catalog.program_at(2, 1), None);
    assert_eq!(catalog.program_at(3, 0), None);
    assert_eq!(catalog.program_at(usize::MAX, usize::MAX), None);
}

#[test]
fn the_places_of_a_program_are_found_by_its_numbers() {
    let catalog = catalog();
    assert_eq!(
        catalog.locate(5, 9),
        Some(ProgramPosition { num_banks: 3, bank_index: 1, num_presets: 2, preset_index: 1 })
    );
    assert_eq!(
        catalog.locate(128, 0),
        Some(ProgramPosition { num_banks: 3, bank_index: 2, num_presets: 1, preset_index: 0 })
    );
    assert_eq!(
        catalog.locate(0, 100),
        Some(ProgramPosition { num_banks: 3, bank_index: 0, num_presets: 3, preset_index: 2 })
    );
    assert_eq!(catalog.locate(5, 8), None);
    assert_eq!(catalog.locate(6, 7), None);
    for bank_index in 0..3 {
        for preset_index in 0..3 {
            if let Some((bank, preset)) = catalog.program_at(bank_index, preset_index) {
                let position = catalog.locate(bank, preset).unwrap();
                assert_eq!((position.bank_index, position.preset_index), (bank_index, preset_index));
            }
        }
    }
}

fn program(bank: u32, preset: u8, name: &str) -> Program {
    Program {
        path: "a.sf2".to_string(),
        num_banks: 1,
        bank_index: 0,
        bank,
        num_presets: 1,
        preset_index: 0,
        preset_name: name.to_string(),
        preset,
    }
}

#[test]
fn the_record_keeps_a_program_for_each_channel() {
    let mut state = SynthState::new();
    assert_eq!(state.gain(), 127);
    assert!(state.get_program(0).is_none());
    state.set_program(0, program(1, 2, "one"));
    state.set_program(255, program(3, 4, "two"));
    assert_eq!(state.get_program(0).unwrap().preset_name, "one");
    assert_eq!(state.get_program(255).unwrap().bank, 3);
    assert!(state.get_program(1).is_none());
    state.set_program(0, program(5, 6, "three"));
    assert_eq!(state.get_program(0).unwrap().preset, 6);
    assert_eq!(state.get_program(0).unwrap().preset_name, "three");
    state.unset_program(0);
    assert!(state.get_program(0).is_none());
    assert_eq!(state.get_program(255).unwrap().preset_name, "two");
    state.unset_program(0);
    state.set_gain(12);
    assert_eq!(state.gain(), 12);
    let copy = state.get_program(255).unwrap().duplicate();
    assert_eq!(copy.path, "a.sf2");
    assert_eq!((copy.bank, copy.preset), (3, 4));
    assert_eq!(copy.preset_name, "two");
}

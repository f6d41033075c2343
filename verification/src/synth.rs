use vstd::prelude::*;

verus! {

/// The synthesizer. Nothing of its state is known here.
#[verifier::external_type_specification]
#[verifier::external_body]
pub struct ExSynth(oxisynth::Synth);

/// A parsed instrument-bank file.
#[verifier::external_type_specification]
#[verifier::external_body]
pub struct ExSoundFont(oxisynth::SoundFont);

/// A handle of the synthesizer, here for a bank that it has loaded.
#[verifier::external_type_specification]
#[verifier::external_body]
#[verifier::reject_recursive_types(T)]
pub struct ExTypedIndex<T>(oxisynth::TypedIndex<T>);

/// One instrument of a bank.
#[verifier::external_type_specification]
#[verifier::external_body]
pub struct ExPreset(oxisynth::Preset);

/// Why the synthesizer refused a request.
#[verifier::external_type_specification]
#[verifier::external_body]
pub struct ExOxiError(oxisynth::OxiError);

/// The presets that a bank file defines, each by its bank number and its
/// number within the bank.
pub uninterp spec fn font_presets(font: oxisynth::SoundFont) -> Set<(u32, u8)>;

/// `SoundFont::preset` of oxisynth looks for the preset with the given bank
/// and preset number among those of the file, and finds it or not. The
/// contract names the pairs for which it finds one `font_presets`.
#[verifier::external_body]
pub(crate) fn font_has_preset(font: &oxisynth::SoundFont, bank: u32, preset: u8) -> (defined: bool)
    ensures
        defined == font_presets(*font).contains((bank, preset)),
{
    font.preset(bank, preset).is_some()
}

/// `Synth::add_font` of oxisynth puts the bank on top of the synthesizer's
/// stack of banks and returns its handle. Nothing is claimed of the handle.
#[verifier::external_body]
pub(crate) fn add_font(
    synth: &mut oxisynth::Synth,
    font: oxisynth::SoundFont,
    reset_presets: bool,
) -> (id: oxisynth::SoundFontId) {
    synth.add_font(font, reset_presets)
}

/// `Synth::program_select` of oxisynth assigns a preset of a loaded bank to a
/// channel, or refuses: no such channel, no such preset in that bank. Nothing
/// is claimed of the outcome.
#[verifier::external_body]
pub(crate) fn program_select(
    synth: &mut oxisynth::Synth,
    channel: u8,
    id: oxisynth::SoundFontId,
    bank: u32,
    preset: u8,
) -> (outcome: Result<(), oxisynth::OxiError>) {
    synth.program_select(channel, id, bank, preset)
}

/// `Synth::channel_preset` of oxisynth returns the preset that is assigned to
/// a channel, if there is such a channel and it has one. Nothing is claimed of
/// the outcome.
#[verifier::external_body]
pub(crate) fn channel_preset(
    synth: &oxisynth::Synth,
    channel: u8,
) -> (preset: Option<&std::sync::Arc<oxisynth::Preset>>) {
    synth.channel_preset(channel)
}

/// `Preset::name` of oxisynth returns the name that the bank file gives the
/// preset. Nothing is claimed of the name.
#[verifier::external_body]
pub(crate) fn preset_name(preset: &std::sync::Arc<oxisynth::Preset>) -> (name: String) {
    preset.name().to_string()
}

} // verus!

use crate::midi_event_queue::MidiEventQueue;
use crate::text::push_decimal;
use crate::text::decimal;
use vstd::prelude::*;
use vstd::string::StringExecFns;

verus! {

/// The phase of an export.
#[derive(Clone, Copy, Debug, PartialEq, Eq, Structural)]
pub enum ExportState {
    /// No export is under way.
    NotExporting,
    /// The music is rendered, sample by sample.
    WritingWav { total_samples: u64, exported_samples: u64 },
    /// The music is over and the sound that is left is appended.
    AppendingDecay,
    /// The audio is encoded and written.
    WritingToDisk,
    /// One file is written.
    Done,
}

/// The format of an exported file.
#[derive(Clone, Copy, Debug, PartialEq, Eq, Structural)]
pub enum ExportType {
    Wav,
    Mid,
    MP3,
    Ogg,
    Flac,
}

/// The formats, in the order in which the settings offer them.
pub const NUM_EXPORT_TYPES: usize = 5;

impl ExportType {
    /// The format at position `index` of the list of formats.
    pub open spec fn spec_from_index(index: usize) -> ExportType {
        if index == 0 {
            ExportType::Wav
        } else if index == 1 {
            ExportType::Mid
        } else if index == 2 {
            ExportType::MP3
        } else if index == 3 {
            ExportType::Ogg
        } else {
            ExportType::Flac
        }
    }

    /// The format at position `index` of the list of formats; the last
    /// format for a position beyond the list.
    pub fn from_index(index: usize) -> (export_type: ExportType)
        ensures
            export_type == Self::spec_from_index(index),
    {
        if index == 0 {
            ExportType::Wav
        } else if index == 1 {
            ExportType::Mid
        } else if index == 2 {
            ExportType::MP3
        } else if index == 3 {
            ExportType::Ogg
        } else {
            ExportType::Flac
        }
    }

    /// The file extension of the format, with its period.
    pub open spec fn spec_extension(self) -> Seq<char> {
        match self {
            ExportType::Wav => ".wav"@,
            ExportType::Mid => ".mid"@,
            ExportType::MP3 => ".mp3"@,
            ExportType::Ogg => ".ogg"@,
            ExportType::Flac => ".flac"@,
        }
    }

    /// The file extension of the format, with its period.
    pub fn extension(self) -> (extension: &'static str)
        ensures
            extension@ == self.spec_extension(),
    {
        match self {
            ExportType::Wav => ".wav",
            ExportType::Mid => ".mid",
            ExportType::MP3 => ".mp3",
            ExportType::Ogg => ".ogg",
            ExportType::Flac => ".flac",
        }
    }

    /// The place of the format in the list of formats.
    pub open spec fn spec_index(self) -> usize {
        match self {
            ExportType::Wav => 0,
            ExportType::Mid => 1,
            ExportType::MP3 => 2,
            ExportType::Ogg => 3,
            ExportType::Flac => 4,
        }
    }

    /// The place of the format in the list of formats.
    #[verifier::when_used_as_spec(spec_index)]
    pub fn index(self) -> (index: usize)
        ensures
            index == self.spec_index(),
            index < NUM_EXPORT_TYPES,
            Self::spec_from_index(index) == self,
    {
        match self {
            ExportType::Wav => 0,
            ExportType::Mid => 1,
            ExportType::MP3 => 2,
            ExportType::Ogg => 3,
            ExportType::Flac => 4,
        }
    }

    /// The format of the files with the extension `extension`, written
    /// without its period, if there is such a format.
    pub open spec fn spec_from_extension(extension: Seq<char>) -> Option<ExportType> {
        if extension == "wav"@ {
            Some(ExportType::Wav)
        } else if extension == "mid"@ {
            Some(ExportType::Mid)
        } else if extension == "mp3"@ {
            Some(ExportType::MP3)
        } else if extension == "ogg"@ {
            Some(ExportType::Ogg)
        } else if extension == "flac"@ {
            Some(ExportType::Flac)
        } else {
            None
        }
    }

    /// The format of the files with the extension `extension`, written
    /// without its period, if there is such a format.
    pub fn from_extension(extension: &String) -> (export_type: Option<ExportType>)
        ensures
            export_type == Self::spec_from_extension(extension@),
    {
        if *extension == String::from_str("wav") {
            Some(ExportType::Wav)
        } else if *extension == String::from_str("mid") {
            Some(ExportType::Mid)
        } else if *extension == String::from_str("mp3") {
            Some(ExportType::MP3)
        } else if *extension == String::from_str("ogg") {
            Some(ExportType::Ogg)
        } else if *extension == String::from_str("flac") {
            Some(ExportType::Flac)
        } else {
            None
        }
    }

    /// Whether files of the format hold rendered audio.
    pub fn is_audio(self) -> (audio: bool)
        ensures
            audio == (self != ExportType::Mid),
    {
        match self {
            ExportType::Mid => false,
            _ => true,
        }
    }
}

/// What tells the files of a multi-file export apart.
#[derive(Clone, Copy, Debug, PartialEq, Eq, Structural)]
pub enum MultiFileSuffix {
    /// The channel of the track.
    Channel,
    /// The name of the preset of the track.
    Preset,
    /// The channel of the track, an underscore and the name of its preset.
    ChannelAndPreset,
}

/// The suffix of the file of a track on `channel` whose preset is called
/// `preset_name`.
pub open spec fn spec_file_suffix(policy: MultiFileSuffix, channel: u8, preset_name: Seq<char>) -> Seq<
    char,
> {
    match policy {
        MultiFileSuffix::Channel => decimal(channel as nat),
        MultiFileSuffix::Preset => preset_name,
        MultiFileSuffix::ChannelAndPreset => decimal(channel as nat) + "_"@ + preset_name,
    }
}

/// The suffix of the file of a track on `channel` whose preset is called
/// `preset_name`.
pub fn file_suffix(policy: MultiFileSuffix, channel: u8, preset_name: &str) -> (suffix: String)
    ensures
        suffix@ == spec_file_suffix(policy, channel, preset_name@),
{
    let mut suffix = String::new();
    match policy {
        MultiFileSuffix::Channel => {
            push_decimal(&mut suffix, channel as u64);
        },
        MultiFileSuffix::Preset => {
            suffix.append(preset_name);
        },
        MultiFileSuffix::ChannelAndPreset => {
            push_decimal(&mut suffix, channel as u64);
            suffix.append("_");
            suffix.append(preset_name);
        },
    }
    proof {
        assert(suffix@ =~= spec_file_suffix(policy, channel, preset_name@));
    }
    suffix
}

/// The name of an exported file: the base name, then an underscore and the
/// suffix where there is one, then the extension.
pub open spec fn spec_file_name(base: Seq<char>, suffix: Option<Seq<char>>, extension: Seq<char>) -> Seq<
    char,
> {
    match suffix {
        Some(suffix) => base + "_"@ + suffix + extension,
        None => base + extension,
    }
}

/// The name of an exported file: the base name, then an underscore and the
/// suffix where there is one, then the extension.
pub fn file_name(base: &str, suffix: &Option<String>, extension: &str) -> (name: String)
    ensures
        name@ == spec_file_name(
            base@,
            match suffix {
                Some(s) => Some(s@),
                None => None,
            },
            extension@,
        ),
{
    let mut name = String::new();
    name.append(base);
    match suffix {
        Some(s) => {
            name.append("_");
            name.append(s.as_str());
        },
        None => {},
    }
    name.append(extension);
    proof {
        assert(name@ =~= spec_file_name(
            base@,
            match suffix {
                Some(s) => Some(s@),
                None => None,
            },
            extension@,
        ));
    }
    name
}

/// One file of an export: the events to render, the number of samples that
/// they take, and what tells the file apart from the others.
pub struct Exportable {
    /// The events, in ascending order of time.
    pub events: MidiEventQueue,
    /// The number of samples up to the end of the last note.
    pub total_samples: u64,
    /// The suffix of the file name, where the export has more than one file.
    pub suffix: Option<String>,
}

} // verus!

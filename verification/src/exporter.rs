use crate::export::{ExportType, MultiFileSuffix, NUM_EXPORT_TYPES};
use crate::index::{Index, IndexView};
use crate::text::{decimal, push_char, push_decimal};
use vstd::prelude::*;
use vstd::string::StringExecFns;

verus! {

/// The frame rate of new export settings, in samples per second.
pub const DEFAULT_FRAMERATE: u32 = 44100;

/// The frame rates on offer, in samples per second and in ascending order.
pub const NUM_FRAMERATES: usize = 3;

/// The frame rate at position `index` of the frame rates on offer.
pub open spec fn spec_framerate_at(index: usize) -> u32 {
    if index == 0 {
        22050
    } else if index == 1 {
        44100
    } else {
        48000
    }
}

/// The position of `framerate` among the frame rates on offer, or that of
/// the default frame rate where it is not among them.
pub open spec fn spec_framerate_position(framerate: u32) -> usize {
    if framerate == 22050 {
        0
    } else if framerate == 48000 {
        2
    } else {
        1
    }
}

/// The number of MP3 bit rates on offer.
pub const NUM_MP3_BIT_RATES: usize = 16;

/// The number of MP3 qualities on offer: the first is the best.
pub const NUM_MP3_QUALITIES: usize = 10;

/// The number of Ogg Vorbis qualities on offer: the last is the best.
pub const NUM_OGG_QUALITIES: usize = 10;

/// The MP3 bit rate at position `index`, in kilobits per second.
pub open spec fn spec_mp3_kbps(index: usize) -> u16 {
    if index == 0 {
        8
    } else if index == 1 {
        16
    } else if index == 2 {
        24
    } else if index == 3 {
        32
    } else if index == 4 {
        40
    } else if index == 5 {
        48
    } else if index == 6 {
        64
    } else if index == 7 {
        80
    } else if index == 8 {
        96
    } else if index == 9 {
        112
    } else if index == 10 {
        128
    } else if index == 11 {
        160
    } else if index == 12 {
        192
    } else if index == 13 {
        224
    } else if index == 14 {
        256
    } else {
        320
    }
}

/// The MP3 bit rate at position `index`, in kilobits per second; the highest
/// for a position beyond the list.
pub fn mp3_kbps(index: usize) -> (kbps: u16)
    ensures
        kbps == spec_mp3_kbps(index),
{
    if index == 0 {
        8
    } else if index == 1 {
        16
    } else if index == 2 {
        24
    } else if index == 3 {
        32
    } else if index == 4 {
        40
    } else if index == 5 {
        48
    } else if index == 6 {
        64
    } else if index == 7 {
        80
    } else if index == 8 {
        96
    } else if index == 9 {
        112
    } else if index == 10 {
        128
    } else if index == 11 {
        160
    } else if index == 12 {
        192
    } else if index == 13 {
        224
    } else if index == 14 {
        256
    } else {
        320
    }
}

/// What is written into an exported file about the music.
pub struct Metadata {
    pub title: String,
    pub artist: Option<String>,
    pub album: Option<String>,
    pub genre: Option<String>,
    pub comment: Option<String>,
    pub track_number: Option<u32>,
}

/// A `Metadata` as plain values.
pub struct MetadataView {
    pub title: Seq<char>,
    pub artist: Option<Seq<char>>,
    pub album: Option<Seq<char>>,
    pub genre: Option<Seq<char>>,
    pub comment: Option<Seq<char>>,
    pub track_number: Option<u32>,
}

impl View for Metadata {
    type V = MetadataView;

    open spec fn view(&self) -> MetadataView {
        MetadataView {
            title: self.title@,
            artist: option_view(self.artist),
            album: option_view(self.album),
            genre: option_view(self.genre),
            comment: option_view(self.comment),
            track_number: self.track_number,
        }
    }
}

/// The form of the samples in a WAV file.
#[derive(Clone, Copy, Debug, PartialEq, Eq, Structural)]
pub struct WavFormat {
    pub channels: u16,
    pub sample_rate: u32,
    pub bits_per_sample: u16,
}

/// The settings of an MP3 encoder.
#[derive(Clone, Copy, Debug, PartialEq, Eq, Structural)]
pub struct Mp3Format {
    pub channels: u8,
    pub sample_rate: u32,
    /// The bit rate, in kilobits per second.
    pub kbps: u16,
    /// The quality, from 0, the best, to 9.
    pub quality: u8,
}

/// A numeral of `n` with a minus sign where `n` is negative.
pub open spec fn signed_decimal(n: int) -> Seq<char> {
    if n < 0 {
        seq!['-'] + decimal((-n) as nat)
    } else {
        decimal(n as nat)
    }
}

/// The numeral of `n`.
pub fn to_signed_decimal(n: i32) -> (s: String)
    ensures
        s@ == signed_decimal(n as int),
{
    let mut s = String::new();
    if n < 0 {
        push_char(&mut s, '-');
        let magnitude: u64 = (-(n as i64)) as u64;
        push_decimal(&mut s, magnitude);
        proof {
            assert(s@ =~= seq!['-'] + decimal((-n) as nat));
        }
    } else {
        push_decimal(&mut s, n as u64);
        proof {
            assert(s@ =~= decimal(n as nat));
        }
    }
    s
}

/// The view of a string that may be absent.
pub open spec fn option_view(s: Option<String>) -> Option<Seq<char>> {
    match s {
        Some(s) => Some(s@),
        None => None,
    }
}

/// A comment of a Vorbis header: its name and its value.
pub struct Comment {
    pub name: String,
    pub value: String,
}

impl View for Comment {
    type V = (Seq<char>, Seq<char>);

    open spec fn view(&self) -> (Seq<char>, Seq<char>) {
        (self.name@, self.value@)
    }
}

/// The comments of `comments` as plain values.
pub open spec fn comment_views(comments: Seq<Comment>) -> Seq<(Seq<char>, Seq<char>)> {
    comments.map_values(|c: Comment| c@)
}

/// `comments` followed by a comment `name` of value `value`, where there is a
/// value.
pub open spec fn with_comment(
    comments: Seq<(Seq<char>, Seq<char>)>,
    name: Seq<char>,
    value: Option<Seq<char>>,
) -> Seq<(Seq<char>, Seq<char>)> {
    match value {
        Some(v) => comments.push((name, v)),
        None => comments,
    }
}

/// The vendor that is named in the comments of an exported Ogg Vorbis file.
pub const OGG_VENDOR: &'static str = "Ogg";

/// Why an export failed.
#[derive(Clone, Copy, Debug, PartialEq, Eq, Structural)]
pub enum ExportError {
    /// The comments could not be put into the encoded stream.
    Comments,
}

/// An error of the crate that writes the comments of Ogg Vorbis streams.
#[verifier::external_type_specification]
#[verifier::external_body]
pub struct ExOggError(oggvorbismeta::Error);

/// The stream that `replace_comment_header` of oggvorbismeta makes of a
/// stream, a vendor and comments, or nothing where it fails.
pub uninterp spec fn spec_replace_comment_header(
    stream: Seq<u8>,
    vendor: Seq<char>,
    comments: Seq<(Seq<char>, Seq<char>)>,
) -> Option<Seq<u8>>;

/// `replace_comment_header` of oggvorbismeta reads an Ogg stream packet by
/// packet and writes it again, with a comment header made of the given vendor
/// and comments in place of the first comment header that it finds. It fails
/// where the stream cannot be read as Ogg or a string is too long. The
/// contract names what it returns `spec_replace_comment_header`.
#[verifier::external_body]
fn replace_comment_header(
    stream: &Vec<u8>,
    vendor: &str,
    comments: &Vec<Comment>,
) -> (replaced: Result<Vec<u8>, oggvorbismeta::Error>)
    ensures
        match replaced {
            Ok(bytes) => spec_replace_comment_header(stream@, vendor@, comment_views(comments@))
                == Some(bytes@),
            Err(_) => spec_replace_comment_header(stream@, vendor@, comment_views(comments@))
                == None::<Seq<u8>>,
        },
{
    let header = oggvorbismeta::CommentHeader {
        vendor: vendor.to_string(),
        comment_list: comments.iter().map(|c| (c.name.clone(), c.value.clone())).collect(),
    };
    match oggvorbismeta::replace_comment_header(std::io::Cursor::new(stream), &header) {
        Ok(replaced) => Ok(replaced.into_inner()),
        Err(error) => Err(error),
    }
}

/// The fields of an ID3 tag.
pub struct Id3Fields {
    pub year: i32,
    pub title: String,
    pub artist: Option<String>,
    pub album: Option<String>,
    pub genre: Option<String>,
    pub track: Option<u32>,
}

/// The settings of an export.
pub struct Exporter {
    /// The frame rate, in samples per second.
    pub framerate: u32,
    /// What is written into the file about the music.
    pub metadata: Metadata,
    /// Whether a copyright notice is written.
    pub copyright: bool,
    /// The position of the MP3 bit rate in the list of bit rates.
    pub mp3_bit_rate: Index,
    /// The position of the MP3 quality in the list of qualities.
    pub mp3_quality: Index,
    /// The position of the Ogg Vorbis quality in the list of qualities.
    pub ogg_quality: Index,
    /// Whether each track is exported to a file of its own.
    pub multi_file: bool,
    /// What tells the files of the tracks apart.
    pub multi_file_suffix: MultiFileSuffix,
    /// The position of the format in the list of formats.
    pub export_type: Index,
}

/// An `Exporter` as plain values.
pub struct ExporterView {
    pub framerate: u32,
    pub metadata: MetadataView,
    pub copyright: bool,
    pub mp3_bit_rate: IndexView,
    pub mp3_quality: IndexView,
    pub ogg_quality: IndexView,
    pub multi_file: bool,
    pub multi_file_suffix: MultiFileSuffix,
    pub export_type: IndexView,
}

impl ExporterView {
    /// The format of the files.
    pub open spec fn export_type(self) -> ExportType {
        ExportType::spec_from_index(self.export_type.index as usize)
    }
}

impl View for Exporter {
    type V = ExporterView;

    open spec fn view(&self) -> ExporterView {
        ExporterView {
            framerate: self.framerate,
            metadata: self.metadata@,
            copyright: self.copyright,
            mp3_bit_rate: self.mp3_bit_rate@,
            mp3_quality: self.mp3_quality@,
            ogg_quality: self.ogg_quality@,
            multi_file: self.multi_file,
            multi_file_suffix: self.multi_file_suffix,
            export_type: self.export_type@,
        }
    }
}

fn copy_string(s: &Option<String>) -> (copy: Option<String>)
    ensures
        option_view(copy) == option_view(*s),
{
    match s {
        Some(s) => Some(s.clone()),
        None => None,
    }
}

impl Exporter {
    /// The settings of a first export: WAV at `DEFAULT_FRAMERATE`, one file
    /// for all tracks, no title.
    pub fn new() -> (exporter: Exporter)
        ensures
            exporter.framerate == DEFAULT_FRAMERATE,
            exporter.export_type@.index == 0,
            exporter.export_type@.length == NUM_EXPORT_TYPES,
            exporter.mp3_bit_rate@.index == 8,
            exporter.mp3_bit_rate@.length == NUM_MP3_BIT_RATES,
            exporter.mp3_quality@.index == 0,
            exporter.mp3_quality@.length == NUM_MP3_QUALITIES,
            exporter.ogg_quality@.index == 5,
            exporter.ogg_quality@.length == NUM_OGG_QUALITIES,
            !exporter.multi_file,
            !exporter.copyright,
            exporter.multi_file_suffix == MultiFileSuffix::Channel,
            exporter.metadata.title@ == Seq::<char>::empty(),
            exporter.metadata.artist.is_none(),
            exporter.metadata.album.is_none(),
            exporter.metadata.genre.is_none(),
            exporter.metadata.comment.is_none(),
            exporter.metadata.track_number.is_none(),
    {
        Exporter {
            framerate: DEFAULT_FRAMERATE,
            metadata: Metadata {
                title: String::new(),
                artist: None,
                album: None,
                genre: None,
                comment: None,
                track_number: None,
            },
            copyright: false,
            mp3_bit_rate: Index::new(8, NUM_MP3_BIT_RATES),
            mp3_quality: Index::new(0, NUM_MP3_QUALITIES),
            ogg_quality: Index::new(5, NUM_OGG_QUALITIES),
            multi_file: false,
            multi_file_suffix: MultiFileSuffix::Channel,
            export_type: Index::new(0, NUM_EXPORT_TYPES),
        }
    }

    /// A copy of the settings, for an export that later changes of the
    /// settings must not reach.
    pub fn duplicate(&self) -> (copy: Exporter)
        ensures
            copy@ == self@,
    {
        Exporter {
            framerate: self.framerate,
            metadata: Metadata {
                title: self.metadata.title.clone(),
                artist: copy_string(&self.metadata.artist),
                album: copy_string(&self.metadata.album),
                genre: copy_string(&self.metadata.genre),
                comment: copy_string(&self.metadata.comment),
                track_number: self.metadata.track_number,
            },
            copyright: self.copyright,
            mp3_bit_rate: self.mp3_bit_rate,
            mp3_quality: self.mp3_quality,
            ogg_quality: self.ogg_quality,
            multi_file: self.multi_file,
            multi_file_suffix: self.multi_file_suffix,
            export_type: self.export_type,
        }
    }

    /// Sets the frame rate to the next of the frame rates on offer, or to the
    /// one before, around the ends of the list. A frame rate that is not on
    /// offer counts as the default frame rate.
    pub fn set_framerate(&mut self, up: bool)
        ensures
            final(self).framerate == spec_framerate_at(
                if up {
                    ((spec_framerate_position(old(self).framerate) + 1) % 3) as usize
                } else {
                    ((spec_framerate_position(old(self).framerate) + 2) % 3) as usize
                },
            ),
            final(self).metadata == old(self).metadata,
            final(self).copyright == old(self).copyright,
            final(self).mp3_bit_rate == old(self).mp3_bit_rate,
            final(self).mp3_quality == old(self).mp3_quality,
            final(self).ogg_quality == old(self).ogg_quality,
            final(self).multi_file == old(self).multi_file,
            final(self).multi_file_suffix == old(self).multi_file_suffix,
            final(self).export_type == old(self).export_type,
    {
        let position: usize = if self.framerate == 22050 {
            0
        } else if self.framerate == 48000 {
            2
        } else {
            1
        };
        let mut index = Index::new(position, NUM_FRAMERATES);
        index.increment(up);
        let next = index.get();
        self.framerate = if next == 0 {
            22050
        } else if next == 1 {
            DEFAULT_FRAMERATE
        } else {
            48000
        };
    }

    /// Counts the track number up or down. Counting up from no number gives
    /// zero, and from the highest number the highest number; counting down
    /// from zero or from no number gives no number.
    pub fn set_track_number(&mut self, up: bool)
        ensures
            final(self).metadata.track_number == if up {
                match old(self).metadata.track_number {
                    Some(n) => Some(
                        if n < u32::MAX {
                            (n + 1) as u32
                        } else {
                            n
                        },
                    ),
                    None => Some(0u32),
                }
            } else {
                match old(self).metadata.track_number {
                    Some(n) if n > 0 => Some((n - 1) as u32),
                    _ => None,
                }
            },
            final(self).metadata.title == old(self).metadata.title,
            final(self).metadata.artist == old(self).metadata.artist,
            final(self).metadata.album == old(self).metadata.album,
            final(self).metadata.genre == old(self).metadata.genre,
            final(self).metadata.comment == old(self).metadata.comment,
            final(self).framerate == old(self).framerate,
            final(self).copyright == old(self).copyright,
            final(self).mp3_bit_rate == old(self).mp3_bit_rate,
            final(self).mp3_quality == old(self).mp3_quality,
            final(self).ogg_quality == old(self).ogg_quality,
            final(self).multi_file == old(self).multi_file,
            final(self).multi_file_suffix == old(self).multi_file_suffix,
            final(self).export_type == old(self).export_type,
    {
        let number = if up {
            match self.metadata.track_number {
                Some(n) => Some(n.saturating_add(1)),
                None => Some(0),
            }
        } else {
            match self.metadata.track_number {
                Some(n) => n.checked_sub(1),
                None => None,
            }
        };
        self.metadata.track_number = number;
    }

    /// The format of the export.
    pub open spec fn spec_export_type(&self) -> ExportType {
        ExportType::spec_from_index(self.export_type@.index as usize)
    }

    /// The format of the export.
    #[verifier::when_used_as_spec(spec_export_type)]
    pub fn get_export_type(&self) -> (export_type: ExportType)
        ensures
            export_type == self.spec_export_type(),
    {
        ExportType::from_index(self.export_type.get())
    }

    /// The form of the samples of a WAV export: stereo, sixteen bits, at the
    /// frame rate of the settings.
    pub fn wav(&self) -> (format: WavFormat)
        ensures
            format == (WavFormat { channels: 2, sample_rate: self.framerate, bits_per_sample: 16 }),
    {
        WavFormat { channels: 2, sample_rate: self.framerate, bits_per_sample: 16 }
    }

    /// The settings of the encoder of an MP3 export: stereo, at the frame
    /// rate, the bit rate and the quality of the settings.
    pub fn mp3(&self) -> (format: Mp3Format)
        ensures
            format == (Mp3Format {
                channels: 2,
                sample_rate: self.framerate,
                kbps: spec_mp3_kbps(self.mp3_bit_rate@.index as usize),
                quality: if self.mp3_quality@.index < NUM_MP3_QUALITIES {
                    self.mp3_quality@.index as u8
                } else {
                    (NUM_MP3_QUALITIES - 1) as u8
                },
            }),
    {
        let quality = self.mp3_quality.get();
        Mp3Format {
            channels: 2,
            sample_rate: self.framerate,
            kbps: mp3_kbps(self.mp3_bit_rate.get()),
            quality: if quality < NUM_MP3_QUALITIES {
                quality as u8
            } else {
                (NUM_MP3_QUALITIES - 1) as u8
            },
        }
    }

    /// The comments of an Ogg Vorbis export in `year`.
    pub open spec fn spec_ogg(&self, year: int) -> Seq<(Seq<char>, Seq<char>)> {
        let first = seq![("title"@, self.metadata.title@), ("date"@, signed_decimal(year))];
        let artist = with_comment(first, "artist"@, option_view(self.metadata.artist));
        let copyright = with_comment(
            artist,
            "copyright"@,
            match self.metadata.artist {
                Some(a) if self.copyright => Some(
                    "Copyright "@ + signed_decimal(year) + " "@ + a@,
                ),
                _ => None,
            },
        );
        let album = with_comment(copyright, "album"@, option_view(self.metadata.album));
        let genre = with_comment(album, "genre"@, option_view(self.metadata.genre));
        with_comment(
            genre,
            "tracknumber"@,
            match self.metadata.track_number {
                Some(n) => Some(decimal(n as nat)),
                None => None,
            },
        )
    }

    /// The encoded Ogg Vorbis stream `stream` with the comments of an export
    /// in `year` in place of the comments that it has, under the vendor
    /// `OGG_VENDOR`; or an error where `stream` cannot be read as an Ogg
    /// stream or a comment is too long.
    pub fn ogg(&self, stream: &Vec<u8>, year: i32) -> (tagged: Result<Vec<u8>, ExportError>)
        ensures
            match tagged {
                Ok(bytes) => spec_replace_comment_header(
                    stream@,
                    OGG_VENDOR@,
                    self.spec_ogg(year as int),
                ) == Some(bytes@),
                Err(error) => error == ExportError::Comments && spec_replace_comment_header(
                    stream@,
                    OGG_VENDOR@,
                    self.spec_ogg(year as int),
                ).is_none(),
            },
    {
        let comments = self.ogg_comments(year);
        match replace_comment_header(stream, OGG_VENDOR, &comments) {
            Ok(bytes) => Ok(bytes),
            Err(_) => Err(ExportError::Comments),
        }
    }

    /// The comments of an Ogg Vorbis export in `year`: the title and the year;
    /// then, each where it is set, the artist, a copyright notice that names
    /// the year and the artist, the album, the genre and the track number.
    pub fn ogg_comments(&self, year: i32) -> (comments: Vec<Comment>)
        ensures
            comment_views(comments@) == self.spec_ogg(year as int),
    {
        let mut comments: Vec<Comment> = Vec::new();
        comments.push(Comment { name: String::from_str("title"), value: self.metadata.title.clone() });
        comments.push(Comment { name: String::from_str("date"), value: to_signed_decimal(year) });
        proof {
            assert(comment_views(comments@) =~= seq![
                ("title"@, self.metadata.title@),
                ("date"@, signed_decimal(year as int)),
            ]);
        }
        match &self.metadata.artist {
            Some(artist) => {
                let ghost before = comments@;
                comments.push(Comment { name: String::from_str("artist"), value: artist.clone() });
                proof {
                    assert(comment_views(comments@) =~= comment_views(before).push(
                        ("artist"@, artist@),
                    ));
                }
                if self.copyright {
                    let mut notice = String::from_str("Copyright ");
                    notice.append(to_signed_decimal(year).as_str());
                    notice.append(" ");
                    notice.append(artist.as_str());
                    let ghost before = comments@;
                    comments.push(Comment { name: String::from_str("copyright"), value: notice });
                    proof {
                        assert(comment_views(comments@) =~= comment_views(before).push(
                            (
                                "copyright"@,
                                "Copyright "@ + signed_decimal(year as int) + " "@ + artist@,
                            ),
                        ));
                    }
                }
            },
            None => {},
        }
        match &self.metadata.album {
            Some(album) => {
                let ghost before = comments@;
                comments.push(Comment { name: String::from_str("album"), value: album.clone() });
                proof {
                    assert(comment_views(comments@) =~= comment_views(before).push(
                        ("album"@, album@),
                    ));
                }
            },
            None => {},
        }
        match &self.metadata.genre {
            Some(genre) => {
                let ghost before = comments@;
                comments.push(Comment { name: String::from_str("genre"), value: genre.clone() });
                proof {
                    assert(comment_views(comments@) =~= comment_views(before).push(
                        ("genre"@, genre@),
                    ));
                }
            },
            None => {},
        }
        match self.metadata.track_number {
            Some(number) => {
                let mut value = String::new();
                push_decimal(&mut value, number as u64);
                let ghost before = comments@;
                comments.push(Comment { name: String::from_str("tracknumber"), value });
                proof {
                    assert(value@ =~= decimal(number as nat));
                    assert(comment_views(comments@) =~= comment_views(before).push(
                        ("tracknumber"@, decimal(number as nat)),
                    ));
                }
            },
            None => {},
        }
        comments
    }

    /// The fields of the ID3 tag of an MP3 export in `year`: the year, the
    /// title, and what is set of artist, album, genre and track number.
    pub fn write_id3_tag(&self, year: i32) -> (tag: Id3Fields)
        ensures
            tag.year == year,
            tag.title@ == self.metadata.title@,
            option_view(tag.artist) == option_view(self.metadata.artist),
            option_view(tag.album) == option_view(self.metadata.album),
            option_view(tag.genre) == option_view(self.metadata.genre),
            tag.track == self.metadata.track_number,
    {
        Id3Fields {
            year,
            title: self.metadata.title.clone(),
            artist: copy_string(&self.metadata.artist),
            album: copy_string(&self.metadata.album),
            genre: copy_string(&self.metadata.genre),
            track: self.metadata.track_number,
        }
    }
}

} // verus!

use crate::exporter::Exporter;
use crate::music::{MidiTrack, Music, Note};
use crate::synth_state::{ProgramView, SynthState};
use crate::time::{Time, PPQ};
use crate::timed::{
    due_at, due_by, is_time_ordered, lemma_due_at_first, lemma_due_in_turn, lemma_filter_all,
    lemma_filter_count, lemma_filter_of_empty, lemma_filter_push, lemma_filter_same,
    lemma_ordered_splits, lemma_sort_by_time, lemma_stable_sort_same_items, sort_by_time,
    stable_sort, Timed,
};
use vstd::bytes::{spec_u32_to_le_bytes, u32_to_le_bytes};
use vstd::prelude::*;
use vstd::string::StrSliceExecFns;
use vstd::utf8::encode_utf8;

verus! {

/// The number of microseconds in a minute.
pub const MICROSECONDS_PER_MINUTE: u64 = 60000000;

/// The kind of a message that is not sent to a channel.
#[derive(Clone, Copy, Debug, PartialEq, Eq, Structural)]
pub enum MetaEvent {
    TextEvent,
    CopyrightNotice,
    InstrumentName,
    SetTempo,
    EndOfTrack,
}

/// A message of a MIDI file.
#[derive(Debug)]
pub enum MidiMessage {
    /// A message that is not sent to a channel.
    MetaEvent { delta_time: u32, event: MetaEvent, data: Vec<u8> },
    /// The start of a note.
    NoteOn { delta_time: u32, ch: u8, note: u8, velocity: u8 },
    /// The end of a note.
    NoteOff { delta_time: u32, ch: u8, note: u8, velocity: u8 },
}

/// A `MidiMessage` as plain values.
pub enum MessageView {
    MetaEvent { delta_time: u32, event: MetaEvent, data: Seq<u8> },
    NoteOn { delta_time: u32, ch: u8, note: u8, velocity: u8 },
    NoteOff { delta_time: u32, ch: u8, note: u8, velocity: u8 },
}

impl View for MidiMessage {
    type V = MessageView;

    open spec fn view(&self) -> MessageView {
        match self {
            MidiMessage::MetaEvent { delta_time, event, data } => MessageView::MetaEvent {
                delta_time: *delta_time,
                event: *event,
                data: data@,
            },
            MidiMessage::NoteOn { delta_time, ch, note, velocity } => MessageView::NoteOn {
                delta_time: *delta_time,
                ch: *ch,
                note: *note,
                velocity: *velocity,
            },
            MidiMessage::NoteOff { delta_time, ch, note, velocity } => MessageView::NoteOff {
                delta_time: *delta_time,
                ch: *ch,
                note: *note,
                velocity: *velocity,
            },
        }
    }
}

/// The messages of `messages` as plain values.
pub open spec fn message_views(messages: Seq<MidiMessage>) -> Seq<MessageView> {
    messages.map_values(|m: MidiMessage| m@)
}

/// A note and the channel of its track.
#[derive(Clone, Copy, Debug, PartialEq, Eq, Structural)]
pub struct MidiNote {
    pub note: Note,
    pub channel: u8,
}

impl Timed for MidiNote {
    open spec fn spec_time(&self) -> u64 {
        self.note.start
    }

    fn time(&self) -> (t: u64) {
        self.note.start
    }
}

impl MidiNote {
    /// `note` on `channel`.
    pub fn new(note: &Note, channel: u8) -> (made: MidiNote)
        ensures
            made == (MidiNote { note: *note, channel }),
    {
        MidiNote { note: *note, channel }
    }
}

/// Puts each note on `channel`.
pub open spec fn on_channel(channel: u8) -> spec_fn(Note) -> MidiNote {
    |n: Note| MidiNote { note: n, channel }
}

/// The notes of `tracks`, track by track, each with the channel of its track.
pub open spec fn gathered(tracks: Seq<MidiTrack>) -> Seq<MidiNote>
    decreases tracks.len(),
{
    if tracks.len() == 0 {
        Seq::<MidiNote>::empty()
    } else {
        gathered(tracks.drop_last()) + tracks.last().notes@.map_values(
            on_channel(tracks.last().channel),
        )
    }
}

/// The latest end of the notes of `notes`, and zero where there is none.
pub open spec fn latest_end(notes: Seq<MidiNote>) -> u64
    decreases notes.len(),
{
    if notes.len() == 0 {
        0
    } else {
        let before = latest_end(notes.drop_last());
        if notes.last().note.end > before {
            notes.last().note.end
        } else {
            before
        }
    }
}

/// Holds of the notes that start at `pulse`.
pub open spec fn starts_at(pulse: u64) -> spec_fn(MidiNote) -> bool {
    |n: MidiNote| n.note.start == pulse
}

/// Holds of the notes that end at `pulse`.
pub open spec fn ends_at(pulse: u64) -> spec_fn(MidiNote) -> bool {
    |n: MidiNote| n.note.end == pulse
}

/// The delta time that is written after `pulses` pulses without a message:
/// the number of whole quarter notes, held to what 32 bits can express.
pub open spec fn spec_delta_time(pulses: nat) -> u32 {
    if pulses / (PPQ as nat) > u32::MAX {
        u32::MAX
    } else {
        (pulses / (PPQ as nat)) as u32
    }
}

/// The message of the start or the end of `note`.
pub open spec fn note_message(delta_time: u32, note: MidiNote, on: bool) -> MessageView {
    if on {
        MessageView::NoteOn {
            delta_time,
            ch: note.channel,
            note: note.note.note,
            velocity: note.note.velocity,
        }
    } else {
        MessageView::NoteOff {
            delta_time,
            ch: note.channel,
            note: note.note.note,
            velocity: note.note.velocity,
        }
    }
}

/// The messages written so far, and the pulses that went by since the last
/// of them.
pub struct Walk {
    pub messages: Seq<MessageView>,
    pub pulses: nat,
}

/// `walk` after a message for each note of `notes`, in their order. The first
/// takes the delta time of the pulses that went by; none go by between
/// messages of one pulse.
pub open spec fn emit(walk: Walk, notes: Seq<MidiNote>, on: bool) -> Walk
    decreases notes.len(),
{
    if notes.len() == 0 {
        walk
    } else {
        let before = emit(walk, notes.drop_last(), on);
        Walk {
            messages: before.messages.push(
                note_message(spec_delta_time(before.pulses), notes.last(), on),
            ),
            pulses: 0,
        }
    }
}

/// `start` after the pulses before `pulse`: at each pulse the starts of the
/// notes that start there, then the ends of the notes that end there, both in
/// the order of `notes`; then the pulse goes by.
pub open spec fn walk_until(start: Walk, notes: Seq<MidiNote>, pulse: nat) -> Walk
    decreases pulse,
{
    if pulse == 0 {
        start
    } else {
        let before = walk_until(start, notes, (pulse - 1) as nat);
        let now = (pulse - 1) as u64;
        let started = emit(before, notes.filter(starts_at(now)), true);
        let ended = emit(started, notes.filter(ends_at(now)), false);
        Walk { messages: ended.messages, pulses: ended.pulses + 1 }
    }
}

/// The three bytes of the tempo of `bpm` beats per minute, in microseconds
/// per beat, the highest byte first.
pub open spec fn tempo_bytes(bpm: u64) -> Seq<u8>
    recommends
        bpm > 0,
{
    let tempo = MICROSECONDS_PER_MINUTE as int / bpm as int;
    seq![((tempo / 65536) % 256) as u8, ((tempo / 256) % 256) as u8, (tempo % 256) as u8]
}

/// `messages` followed by the name of the preset of each channel below
/// `limit` that has a program, in ascending order of the channels.
pub open spec fn with_instruments(
    messages: Seq<MessageView>,
    programs: Map<u8, ProgramView>,
    limit: nat,
) -> Seq<MessageView>
    decreases limit,
{
    if limit == 0 {
        messages
    } else {
        let before = with_instruments(messages, programs, (limit - 1) as nat);
        let channel = (limit - 1) as u8;
        if programs.contains_key(channel) {
            before.push(
                MessageView::MetaEvent {
                    delta_time: 0,
                    event: MetaEvent::InstrumentName,
                    data: encode_utf8(programs[channel].preset_name),
                },
            )
        } else {
            before
        }
    }
}

/// The messages that a MIDI file starts with: the title; the year as a
/// copyright notice, where one is wanted; the names of the instruments; the
/// tempo.
pub open spec fn header(
    title: Seq<char>,
    copyright: bool,
    year: i32,
    programs: Map<u8, ProgramView>,
    bpm: u64,
) -> Seq<MessageView> {
    let text = seq![
        MessageView::MetaEvent {
            delta_time: 0,
            event: MetaEvent::TextEvent,
            data: encode_utf8(title),
        },
    ];
    let notice = if copyright {
        text.push(
            MessageView::MetaEvent {
                delta_time: 0,
                event: MetaEvent::CopyrightNotice,
                data: spec_u32_to_le_bytes(year as u32),
            },
        )
    } else {
        text
    };
    with_instruments(notice, programs, 256).push(
        MessageView::MetaEvent {
            delta_time: 0,
            event: MetaEvent::SetTempo,
            data: tempo_bytes(bpm),
        },
    )
}

/// The messages of the MIDI file of `tracks`: none for music without notes;
/// else the header, the starts and ends of the notes up to the latest end,
/// pulse by pulse and at each pulse in ascending order of the notes' starts,
/// and the end of the track.
pub open spec fn spec_mid(
    title: Seq<char>,
    copyright: bool,
    year: i32,
    programs: Map<u8, ProgramView>,
    bpm: u64,
    tracks: Seq<MidiTrack>,
) -> Seq<MessageView> {
    let notes = gathered(tracks);
    if notes.len() == 0 {
        Seq::<MessageView>::empty()
    } else {
        walk_until(
            Walk { messages: header(title, copyright, year, programs, bpm), pulses: 0 },
            sort_by_time(notes),
            (latest_end(notes) + 1) as nat,
        ).messages.push(
            MessageView::MetaEvent {
                delta_time: 0,
                event: MetaEvent::EndOfTrack,
                data: Seq::<u8>::empty(),
            },
        )
    }
}

/// The channel, the key and the velocity of each note of `notes`.
pub open spec fn keys_of(notes: Seq<MidiNote>) -> Seq<(u8, u8, u8)> {
    notes.map_values(|n: MidiNote| (n.channel, n.note.note, n.note.velocity))
}

/// The channel, the key and the velocity of each note that `messages` start,
/// in their order.
pub open spec fn started(messages: Seq<MessageView>) -> Seq<(u8, u8, u8)>
    decreases messages.len(),
{
    if messages.len() == 0 {
        Seq::<(u8, u8, u8)>::empty()
    } else {
        match messages.last() {
            MessageView::NoteOn { ch, note, velocity, .. } => started(messages.drop_last()).push(
                (ch, note, velocity),
            ),
            _ => started(messages.drop_last()),
        }
    }
}

/// The channel, the key and the velocity of each note that `messages` end,
/// in their order.
pub open spec fn ended(messages: Seq<MessageView>) -> Seq<(u8, u8, u8)>
    decreases messages.len(),
{
    if messages.len() == 0 {
        Seq::<(u8, u8, u8)>::empty()
    } else {
        match messages.last() {
            MessageView::NoteOff { ch, note, velocity, .. } => ended(messages.drop_last()).push(
                (ch, note, velocity),
            ),
            _ => ended(messages.drop_last()),
        }
    }
}

/// Holds of the notes that end at `pulse` or before.
pub open spec fn ends_by(pulse: u64) -> spec_fn(MidiNote) -> bool {
    |n: MidiNote| n.note.end <= pulse
}

/// In the MIDI file of music with a note, none of which ends before it
/// starts, each note is started once and ended once: the notes that the
/// messages start are the notes of the music in ascending order of their
/// starts, those of one start in the order of the music; the notes that the
/// messages end are the notes of the music, each as often as the music has
/// it; and the last message is the end of the track.
pub proof fn law_each_note_starts_and_ends_once(
    title: Seq<char>,
    copyright: bool,
    year: i32,
    programs: Map<u8, ProgramView>,
    bpm: u64,
    tracks: Seq<MidiTrack>,
)
    requires
        gathered(tracks).len() > 0,
        forall|k: int|
            0 <= k < gathered(tracks).len() ==> (#[trigger] gathered(tracks)[k]).note.start
                <= gathered(tracks)[k].note.end,
    ensures
        started(spec_mid(title, copyright, year, programs, bpm, tracks)) == keys_of(
            sort_by_time(gathered(tracks)),
        ),
        ended(spec_mid(title, copyright, year, programs, bpm, tracks)).to_multiset() == keys_of(
            gathered(tracks),
        ).to_multiset(),
        ended(spec_mid(title, copyright, year, programs, bpm, tracks)).len() == gathered(
            tracks,
        ).len(),
        spec_mid(title, copyright, year, programs, bpm, tracks).last() == (MessageView::MetaEvent {
            delta_time: 0,
            event: MetaEvent::EndOfTrack,
            data: Seq::<u8>::empty(),
        }),
{
    let notes = gathered(tracks);
    let first = header(title, copyright, year, programs, bpm);
    let start = Walk { messages: first, pulses: 0 };
    let walked = walk_until(start, sort_by_time(notes), (latest_end(notes) + 1) as nat).messages;
    lemma_header_has_no_notes(title, copyright, year, programs, bpm);
    lemma_whole_walk(start, notes);
    assert(started(first) + keys_of(sort_by_time(notes)) =~= keys_of(sort_by_time(notes)));
    assert(ended(first).to_multiset().add(keys_of(notes).to_multiset()) =~= keys_of(
        notes,
    ).to_multiset()) by {
        broadcast use vstd::multiset::group_multiset_axioms;

        lemma_no_keys();
    }
    lemma_notes_push(
        walked,
        MessageView::MetaEvent {
            delta_time: 0,
            event: MetaEvent::EndOfTrack,
            data: Seq::<u8>::empty(),
        },
    );
}

/// The walk up to and with the latest end of notes, none of which ends
/// before it starts, starts each of them, in order of their starts, and ends
/// as many as there are.
proof fn lemma_whole_walk(start: Walk, notes: Seq<MidiNote>)
    requires
        forall|k: int| 0 <= k < notes.len() ==> (#[trigger] notes[k]).note.start <= notes[k].note.end,
    ensures
        started(
            walk_until(start, sort_by_time(notes), (latest_end(notes) + 1) as nat).messages,
        ) == started(start.messages) + keys_of(sort_by_time(notes)),
        ended(
            walk_until(start, sort_by_time(notes), (latest_end(notes) + 1) as nat).messages,
        ).to_multiset() == ended(start.messages).to_multiset().add(keys_of(notes).to_multiset()),
        ended(walk_until(start, sort_by_time(notes), (latest_end(notes) + 1) as nat).messages).len()
            == ended(start.messages).len() + notes.len(),
{
    let sorted = sort_by_time(notes);
    lemma_sort_by_time(notes);
    lemma_all_by_the_end(notes);
    lemma_sorted_keys(notes);
    lemma_walk_notes(start, sorted, (latest_end(notes) + 1) as nat);
    assert(sorted.subrange(0, sorted.len() as int) =~= sorted);
}

/// No notes have no keys.
proof fn lemma_no_keys()
    ensures
        keys_of(Seq::<MidiNote>::empty()) == Seq::<(u8, u8, u8)>::empty(),
        Seq::<(u8, u8, u8)>::empty().to_multiset() == vstd::multiset::Multiset::<
            (u8, u8, u8),
        >::empty(),
{
    broadcast use vstd::multiset::group_multiset_axioms;

    assert(keys_of(Seq::<MidiNote>::empty()) =~= Seq::<(u8, u8, u8)>::empty());
    vstd::seq_lib::to_multiset_len(Seq::<(u8, u8, u8)>::empty());
    vstd::multiset::lemma_multiset_empty_len(Seq::<(u8, u8, u8)>::empty().to_multiset());
    assert(Seq::<(u8, u8, u8)>::empty().to_multiset() =~= vstd::multiset::Multiset::<
        (u8, u8, u8),
    >::empty());
}

/// Sorting notes keeps each as often as it was there.
proof fn lemma_sorted_keys(notes: Seq<MidiNote>)
    ensures
        keys_of(sort_by_time(notes)).to_multiset() == keys_of(notes).to_multiset(),
    decreases notes.len(),
{
    if notes.len() == 0 {
        assert(sort_by_time(notes) =~= notes);
    } else {
        let rest = notes.drop_last();
        let x = notes.last();
        let sorted = sort_by_time(rest);
        let place = sorted.filter(due_by::<MidiNote>(x.spec_time())).len() as int;
        let key = (x.channel, x.note.note, x.note.velocity);
        lemma_sorted_keys(rest);
        sorted.lemma_filter_len(due_by::<MidiNote>(x.spec_time()));
        assert(keys_of(sorted.insert(place, x)) =~= keys_of(sorted).insert(place, key));
        assert(keys_of(notes) =~= keys_of(rest).push(key));
        vstd::seq_lib::to_multiset_insert(keys_of(sorted), place, key);
        vstd::seq_lib::to_multiset_build(keys_of(rest), key);
    }
}

/// Where no note ends before it starts, every note starts and ends by the
/// latest end.
proof fn lemma_all_by_the_end(notes: Seq<MidiNote>)
    requires
        forall|k: int| 0 <= k < notes.len() ==> (#[trigger] notes[k]).note.start <= notes[k].note.end,
    ensures
        sort_by_time(notes).len() == notes.len(),
        sort_by_time(notes).filter(due_by::<MidiNote>(latest_end(notes))).len() == notes.len(),
        sort_by_time(notes).filter(ends_by(latest_end(notes))) == sort_by_time(notes),
{
    let sorted = sort_by_time(notes);
    let end = latest_end(notes);
    lemma_sort_by_time(notes);
    assert forall|i: int| 0 <= i < sorted.len() implies due_by::<MidiNote>(end)(
        #[trigger] sorted[i],
    ) && ends_by(end)(sorted[i]) by {
        lemma_stable_sort_same_items(sorted, notes, sorted[i]);
        assert(sorted.contains(sorted[i]));
        let j = choose|j: int| 0 <= j < notes.len() && notes[j] == sorted[i];
        lemma_latest_end(notes, j);
    }
    lemma_filter_all(sorted, due_by::<MidiNote>(end));
    lemma_filter_all(sorted, ends_by(end));
}

/// No note ends after the latest end.
proof fn lemma_latest_end(notes: Seq<MidiNote>, i: int)
    requires
        0 <= i < notes.len(),
    ensures
        notes[i].note.end <= latest_end(notes),
    decreases notes.len(),
{
    if i < notes.len() - 1 {
        lemma_latest_end(notes.drop_last(), i);
    }
}

/// What one more message adds to the notes that are started and ended.
proof fn lemma_notes_push(messages: Seq<MessageView>, message: MessageView)
    ensures
        started(messages.push(message)) == match message {
            MessageView::NoteOn { ch, note, velocity, .. } => started(messages).push(
                (ch, note, velocity),
            ),
            _ => started(messages),
        },
        ended(messages.push(message)) == match message {
            MessageView::NoteOff { ch, note, velocity, .. } => ended(messages).push(
                (ch, note, velocity),
            ),
            _ => ended(messages),
        },
{
    assert(messages.push(message).drop_last() =~= messages);
}

/// The names of the instruments start and end no note.
proof fn lemma_instruments_have_no_notes(
    messages: Seq<MessageView>,
    programs: Map<u8, ProgramView>,
    limit: nat,
)
    ensures
        started(with_instruments(messages, programs, limit)) == started(messages),
        ended(with_instruments(messages, programs, limit)) == ended(messages),
    decreases limit,
{
    if limit > 0 {
        let before = with_instruments(messages, programs, (limit - 1) as nat);
        lemma_instruments_have_no_notes(messages, programs, (limit - 1) as nat);
        let channel = (limit - 1) as u8;
        if programs.contains_key(channel) {
            lemma_notes_push(
                before,
                MessageView::MetaEvent {
                    delta_time: 0,
                    event: MetaEvent::InstrumentName,
                    data: encode_utf8(programs[channel].preset_name),
                },
            );
        }
    }
}

/// The messages that a file starts with start and end no note.
proof fn lemma_header_has_no_notes(
    title: Seq<char>,
    copyright: bool,
    year: i32,
    programs: Map<u8, ProgramView>,
    bpm: u64,
)
    ensures
        started(header(title, copyright, year, programs, bpm)) == Seq::<(u8, u8, u8)>::empty(),
        ended(header(title, copyright, year, programs, bpm)) == Seq::<(u8, u8, u8)>::empty(),
{
    let name = MessageView::MetaEvent {
        delta_time: 0,
        event: MetaEvent::TextEvent,
        data: encode_utf8(title),
    };
    let text = seq![name];
    assert(text =~= Seq::<MessageView>::empty().push(name));
    lemma_notes_push(Seq::<MessageView>::empty(), name);
    let notice = if copyright {
        text.push(
            MessageView::MetaEvent {
                delta_time: 0,
                event: MetaEvent::CopyrightNotice,
                data: spec_u32_to_le_bytes(year as u32),
            },
        )
    } else {
        text
    };
    if copyright {
        lemma_notes_push(
            text,
            MessageView::MetaEvent {
                delta_time: 0,
                event: MetaEvent::CopyrightNotice,
                data: spec_u32_to_le_bytes(year as u32),
            },
        );
    }
    lemma_instruments_have_no_notes(notice, programs, 256);
    lemma_notes_push(
        with_instruments(notice, programs, 256),
        MessageView::MetaEvent { delta_time: 0, event: MetaEvent::SetTempo, data: tempo_bytes(bpm) },
    );
}

/// The messages of the starts of notes start those notes, in their order,
/// and end none; the messages of the ends of notes end as many notes and
/// start none.
proof fn lemma_emit_notes(walk: Walk, notes: Seq<MidiNote>, on: bool)
    ensures
        started(emit(walk, notes, on).messages) == if on {
            started(walk.messages) + keys_of(notes)
        } else {
            started(walk.messages)
        },
        ended(emit(walk, notes, on).messages) == if on {
            ended(walk.messages)
        } else {
            ended(walk.messages) + keys_of(notes)
        },
    decreases notes.len(),
{
    if notes.len() == 0 {
        assert(started(walk.messages) + keys_of(notes) =~= started(walk.messages));
        assert(ended(walk.messages) + keys_of(notes) =~= ended(walk.messages));
    } else {
        let rest = notes.drop_last();
        let before = emit(walk, rest, on);
        lemma_emit_notes(walk, rest, on);
        lemma_notes_push(
            before.messages,
            note_message(spec_delta_time(before.pulses), notes.last(), on),
        );
        if on {
            assert((started(walk.messages) + keys_of(rest)).push(
                (notes.last().channel, notes.last().note.note, notes.last().note.velocity),
            ) =~= started(walk.messages) + keys_of(notes));
        } else {
            assert((ended(walk.messages) + keys_of(rest)).push(
                (notes.last().channel, notes.last().note.note, notes.last().note.velocity),
            ) =~= ended(walk.messages) + keys_of(notes));
        }
    }
}

/// The number of notes of `notes` that start before `pulse`, where they are
/// in order of their starts.
spec fn starts_before(notes: Seq<MidiNote>, pulse: nat) -> nat {
    if pulse == 0 {
        0
    } else {
        notes.filter(due_by::<MidiNote>((pulse - 1) as u64)).len()
    }
}

/// The notes of `notes` that end before `pulse`.
spec fn ends_before(notes: Seq<MidiNote>, pulse: nat) -> Seq<MidiNote> {
    if pulse == 0 {
        Seq::<MidiNote>::empty()
    } else {
        notes.filter(ends_by((pulse - 1) as u64))
    }
}

/// Where each note that passes `both` passes one of `first` and `second`
/// and no other does, the notes that pass `both` are those that pass the
/// two, each as often.
proof fn lemma_filter_keys(
    notes: Seq<MidiNote>,
    first: spec_fn(MidiNote) -> bool,
    second: spec_fn(MidiNote) -> bool,
    both: spec_fn(MidiNote) -> bool,
)
    requires
        forall|e: MidiNote| #[trigger] both(e) == (first(e) || second(e)),
        forall|e: MidiNote| !(#[trigger] first(e) && second(e)),
    ensures
        keys_of(notes.filter(both)).to_multiset() == keys_of(notes.filter(first)).to_multiset().add(
            keys_of(notes.filter(second)).to_multiset(),
        ),
    decreases notes.len(),
{
    broadcast use vstd::multiset::group_multiset_axioms;

    if notes.len() == 0 {
        assert(notes =~= Seq::<MidiNote>::empty());
        lemma_filter_of_empty(first);
        lemma_filter_of_empty(second);
        lemma_filter_of_empty(both);
        lemma_no_keys();
        assert(vstd::multiset::Multiset::<(u8, u8, u8)>::empty().add(vstd::multiset::Multiset::<(u8, u8, u8)>::empty())
            =~= vstd::multiset::Multiset::<(u8, u8, u8)>::empty());
    } else {
        let rest = notes.drop_last();
        let x = notes.last();
        let key = (x.channel, x.note.note, x.note.velocity);
        lemma_filter_keys(rest, first, second, both);
        assert(rest.push(x) =~= notes);
        lemma_filter_push(rest, x, first);
        lemma_filter_push(rest, x, second);
        lemma_filter_push(rest, x, both);
        assert(both(x) == (first(x) || second(x)));
        assert(!(first(x) && second(x)));
        let a = keys_of(rest.filter(first));
        let b = keys_of(rest.filter(second));
        let c = keys_of(rest.filter(both));
        if first(x) {
            assert(keys_of(rest.filter(first).push(x)) =~= a.push(key));
            assert(keys_of(rest.filter(both).push(x)) =~= c.push(key));
            vstd::seq_lib::to_multiset_build(a, key);
            vstd::seq_lib::to_multiset_build(c, key);
            assert(a.to_multiset().add(b.to_multiset()).insert(key) =~= a.to_multiset().insert(
                key,
            ).add(b.to_multiset()));
        } else if second(x) {
            assert(keys_of(rest.filter(second).push(x)) =~= b.push(key));
            assert(keys_of(rest.filter(both).push(x)) =~= c.push(key));
            vstd::seq_lib::to_multiset_build(b, key);
            vstd::seq_lib::to_multiset_build(c, key);
            assert(a.to_multiset().add(b.to_multiset()).insert(key) =~= a.to_multiset().add(
                b.to_multiset().insert(key),
            ));
        }
    }
}

/// The walk up to `pulse` starts the notes that start before it, in their
/// order, and ends the notes that end before it, each as often as it is
/// there.
proof fn lemma_walk_notes(start: Walk, notes: Seq<MidiNote>, pulse: nat)
    requires
        is_time_ordered(notes),
        pulse <= u64::MAX + 1,
    ensures
        starts_before(notes, pulse) <= notes.len(),
        started(walk_until(start, notes, pulse).messages) == started(start.messages) + keys_of(
            notes.subrange(0, starts_before(notes, pulse) as int),
        ),
        ended(walk_until(start, notes, pulse).messages).to_multiset() == ended(
            start.messages,
        ).to_multiset().add(keys_of(ends_before(notes, pulse)).to_multiset()),
        ended(walk_until(start, notes, pulse).messages).len() == ended(start.messages).len()
            + ends_before(notes, pulse).len(),
    decreases pulse,
{
    broadcast use vstd::multiset::group_multiset_axioms;

    if pulse == 0 {
        assert(started(start.messages) + keys_of(notes.subrange(0, 0)) =~= started(start.messages));
        lemma_no_keys();
        assert(ended(start.messages).to_multiset().add(vstd::multiset::Multiset::<(u8, u8, u8)>::empty())
            =~= ended(start.messages).to_multiset());
    } else {
        let now = (pulse - 1) as u64;
        let before = walk_until(start, notes, (pulse - 1) as nat);
        let starting = notes.filter(starts_at(now));
        let ending = notes.filter(ends_at(now));
        let begun = emit(before, starting, true);
        lemma_walk_notes(start, notes, (pulse - 1) as nat);
        lemma_emit_notes(before, starting, true);
        lemma_emit_notes(begun, ending, false);
        lemma_filter_same(notes, starts_at(now), due_at::<MidiNote>(now));
        lemma_ordered_splits(notes, now);
        let k1 = starts_before(notes, (pulse - 1) as nat) as int;
        let k2 = starts_before(notes, pulse) as int;
        let earlier = ended(before.messages);
        vstd::seq_lib::lemma_multiset_commutative(earlier, keys_of(ending));
        if now == 0 {
            lemma_due_at_first(notes);
            lemma_filter_same(notes, ends_at(now), ends_by(now));
            assert(notes.subrange(0, 0) =~= Seq::<MidiNote>::empty());
            lemma_no_keys();
            assert(ended(start.messages).to_multiset().add(vstd::multiset::Multiset::<(u8, u8, u8)>::empty()).add(
                keys_of(ending).to_multiset(),
            ) =~= ended(start.messages).to_multiset().add(keys_of(ending).to_multiset()));
        } else {
            let s = (now - 1) as u64;
            lemma_due_in_turn(notes, s, now);
            lemma_filter_count(notes, ends_by(s), ends_at(now), ends_by(now));
            lemma_filter_keys(notes, ends_by(s), ends_at(now), ends_by(now));
            assert(ended(start.messages).to_multiset().add(
                keys_of(notes.filter(ends_by(s))).to_multiset(),
            ).add(keys_of(ending).to_multiset()) =~= ended(start.messages).to_multiset().add(
                keys_of(notes.filter(ends_by(s))).to_multiset().add(keys_of(ending).to_multiset()),
            ));
        }
        assert(starting == notes.subrange(k1, k2));
        assert(keys_of(notes.subrange(0, k1)) + keys_of(notes.subrange(k1, k2)) =~= keys_of(
            notes.subrange(0, k2),
        ));
    }
}

/// The delta time that is written after `pulses` pulses without a message.
pub fn get_delta_time(pulses: u64) -> (delta_time: u32)
    ensures
        delta_time == spec_delta_time(pulses as nat),
{
    let quarters: u64 = pulses / PPQ;
    if quarters > u32::MAX as u64 {
        u32::MAX
    } else {
        quarters as u32
    }
}

/// Appends a message for each note of `notes` that starts at `pulse`, where
/// `on` is set, or ends there, where it is not.
fn emit_at(messages: &mut Vec<MidiMessage>, pulses: &mut u64, notes: &Vec<MidiNote>, pulse: u64, on: bool)
    ensures
        (Walk { messages: message_views(final(messages)@), pulses: *final(pulses) as nat }) == emit(
            Walk { messages: message_views(old(messages)@), pulses: *old(pulses) as nat },
            notes@.filter(
                if on {
                    starts_at(pulse)
                } else {
                    ends_at(pulse)
                },
            ),
            on,
        ),
{
    let ghost pred = if on {
        starts_at(pulse)
    } else {
        ends_at(pulse)
    };
    let ghost start = Walk { messages: message_views(messages@), pulses: *pulses as nat };
    let n: usize = notes.len();
    let mut j: usize = 0;
    proof {
        assert(notes@.subrange(0, 0) =~= Seq::<MidiNote>::empty());
        lemma_filter_of_empty::<MidiNote>(pred);
    }
    while j < n
        invariant
            n == notes.len(),
            j <= n,
            pred == if on {
                starts_at(pulse)
            } else {
                ends_at(pulse)
            },
            (Walk { messages: message_views(messages@), pulses: *pulses as nat }) == emit(
                start,
                notes@.subrange(0, j as int).filter(pred),
                on,
            ),
        decreases n - j,
    {
        let note = notes[j];
        let ghost before = messages@;
        proof {
            let prefix = notes@.subrange(0, j as int);
            assert(notes@.subrange(0, j + 1) =~= prefix.push(note));
            lemma_filter_push(prefix, note, pred);
            assert(prefix.filter(pred).push(note).drop_last() =~= prefix.filter(pred));
        }
        let wanted = if on {
            note.note.start == pulse
        } else {
            note.note.end == pulse
        };
        if wanted {
            let delta_time = get_delta_time(*pulses);
            if on {
                messages.push(
                    MidiMessage::NoteOn {
                        delta_time,
                        ch: note.channel,
                        note: note.note.note,
                        velocity: note.note.velocity,
                    },
                );
            } else {
                messages.push(
                    MidiMessage::NoteOff {
                        delta_time,
                        ch: note.channel,
                        note: note.note.note,
                        velocity: note.note.velocity,
                    },
                );
            }
            *pulses = 0;
            proof {
                assert(message_views(messages@) =~= message_views(before).push(
                    note_message(delta_time, note, on),
                ));
            }
        }
        j += 1;
    }
    proof {
        assert(notes@.subrange(0, n as int) =~= notes@);
    }
}

/// The notes of the tracks of `music`, each with the channel of its track.
fn gather(music: &Music) -> (notes: Vec<MidiNote>)
    ensures
        notes@ == gathered(music.midi_tracks@),
{
    let mut notes: Vec<MidiNote> = Vec::new();
    let n: usize = music.midi_tracks.len();
    let mut i: usize = 0;
    proof {
        assert(music.midi_tracks@.subrange(0, 0) =~= Seq::<MidiTrack>::empty());
    }
    while i < n
        invariant
            n == music.midi_tracks.len(),
            i <= n,
            notes@ == gathered(music.midi_tracks@.subrange(0, i as int)),
        decreases n - i,
    {
        let track = &music.midi_tracks[i];
        let ghost before = notes@;
        let m: usize = track.notes.len();
        let mut j: usize = 0;
        while j < m
            invariant
                m == track.notes.len(),
                j <= m,
                notes@ == before + track.notes@.subrange(0, j as int).map_values(
                    on_channel(track.channel),
                ),
            decreases m - j,
        {
            notes.push(MidiNote::new(&track.notes[j], track.channel));
            proof {
                assert(notes@ =~= before + track.notes@.subrange(0, j + 1).map_values(
                    on_channel(track.channel),
                ));
            }
            j += 1;
        }
        proof {
            assert(track.notes@.subrange(0, m as int) =~= track.notes@);
            assert(music.midi_tracks@.subrange(0, i + 1).drop_last() =~= music.midi_tracks@.subrange(
                0,
                i as int,
            ));
        }
        i += 1;
    }
    proof {
        assert(music.midi_tracks@.subrange(0, n as int) =~= music.midi_tracks@);
    }
    notes
}

/// The latest end of `notes`.
fn get_end(notes: &Vec<MidiNote>) -> (end: u64)
    ensures
        end == latest_end(notes@),
{
    let mut end: u64 = 0;
    let n: usize = notes.len();
    let mut i: usize = 0;
    proof {
        assert(notes@.subrange(0, 0) =~= Seq::<MidiNote>::empty());
    }
    while i < n
        invariant
            n == notes.len(),
            i <= n,
            end == latest_end(notes@.subrange(0, i as int)),
        decreases n - i,
    {
        proof {
            assert(notes@.subrange(0, i + 1).drop_last() =~= notes@.subrange(0, i as int));
        }
        if notes[i].note.end > end {
            end = notes[i].note.end;
        }
        i += 1;
    }
    proof {
        assert(notes@.subrange(0, n as int) =~= notes@);
    }
    end
}

impl Exporter {
    /// The messages of the MIDI file of `music`, without a synthesizer: none
    /// for music without notes.
    pub fn mid(
        &self,
        music: &Music,
        time: &Time,
        synth_state: &SynthState,
        year: i32,
    ) -> (messages: Vec<MidiMessage>)
        ensures
            message_views(messages@) == spec_mid(
                self.metadata.title@,
                self.copyright,
                year,
                synth_state@.programs,
                time.spec_bpm(),
                music.midi_tracks@,
            ),
    {
        let mut messages: Vec<MidiMessage> = Vec::new();
        let mut notes = gather(music);
        if notes.len() == 0 {
            proof {
                assert(message_views(messages@) =~= Seq::<MessageView>::empty());
            }
            return messages;
        }
        messages.push(
            MidiMessage::MetaEvent {
                delta_time: 0,
                event: MetaEvent::TextEvent,
                data: self.metadata.title.as_str().as_bytes_vec(),
            },
        );
        if self.copyright {
            messages.push(
                MidiMessage::MetaEvent {
                    delta_time: 0,
                    event: MetaEvent::CopyrightNotice,
                    data: u32_to_le_bytes(#[verifier::truncate] (year as u32)),
                },
            );
        }
        let ghost notice = message_views(messages@);
        proof {
            let text = seq![
                MessageView::MetaEvent {
                    delta_time: 0,
                    event: MetaEvent::TextEvent,
                    data: encode_utf8(self.metadata.title@),
                },
            ];
            if self.copyright {
                assert(notice =~= text.push(
                    MessageView::MetaEvent {
                        delta_time: 0,
                        event: MetaEvent::CopyrightNotice,
                        data: spec_u32_to_le_bytes(year as u32),
                    },
                ));
            } else {
                assert(notice =~= text);
            }
        }
        let mut channel: u16 = 0;
        while channel < 256
            invariant
                channel <= 256,
                message_views(messages@) == with_instruments(
                    notice,
                    synth_state@.programs,
                    channel as nat,
                ),
            decreases 256 - channel,
        {
            let ghost before = messages@;
            match synth_state.get_program(channel as u8) {
                Some(program) => {
                    messages.push(
                        MidiMessage::MetaEvent {
                            delta_time: 0,
                            event: MetaEvent::InstrumentName,
                            data: program.preset_name.as_str().as_bytes_vec(),
                        },
                    );
                    proof {
                        assert(message_views(messages@) =~= message_views(before).push(
                            MessageView::MetaEvent {
                                delta_time: 0,
                                event: MetaEvent::InstrumentName,
                                data: encode_utf8(program.preset_name@),
                            },
                        ));
                    }
                },
                None => {},
            }
            channel += 1;
        }
        let bpm = time.bpm();
        let tempo: u64 = MICROSECONDS_PER_MINUTE / bpm;
        let mut data: Vec<u8> = Vec::new();
        data.push(((tempo / 65536) % 256) as u8);
        data.push(((tempo / 256) % 256) as u8);
        data.push((tempo % 256) as u8);
        proof {
            assert(data@ =~= tempo_bytes(bpm));
        }
        let ghost before = messages@;
        messages.push(MidiMessage::MetaEvent { delta_time: 0, event: MetaEvent::SetTempo, data });
        proof {
            assert(message_views(messages@) =~= message_views(before).push(
                MessageView::MetaEvent {
                    delta_time: 0,
                    event: MetaEvent::SetTempo,
                    data: tempo_bytes(bpm),
                },
            ));
        }
        let ghost start = Walk { messages: message_views(messages@), pulses: 0 };
        let end = get_end(&notes);
        stable_sort(&mut notes);
        let mut pulse: u64 = 0;
        let mut pulses: u64 = 0;
        while pulse < end
            invariant
                pulse <= end,
                pulses <= pulse,
                (Walk { messages: message_views(messages@), pulses: pulses as nat }) == walk_until(
                    start,
                    notes@,
                    pulse as nat,
                ),
            decreases end - pulse,
        {
            emit_at(&mut messages, &mut pulses, &notes, pulse, true);
            emit_at(&mut messages, &mut pulses, &notes, pulse, false);
            proof {
                lemma_emit_pulses(
                    walk_until(start, notes@, pulse as nat),
                    notes@.filter(starts_at(pulse)),
                    true,
                );
                lemma_emit_pulses(
                    emit(walk_until(start, notes@, pulse as nat), notes@.filter(starts_at(pulse)), true),
                    notes@.filter(ends_at(pulse)),
                    false,
                );
            }
            pulse += 1;
            pulses += 1;
        }
        // The notes that end with the music end at the last pulse.
        emit_at(&mut messages, &mut pulses, &notes, end, true);
        emit_at(&mut messages, &mut pulses, &notes, end, false);
        let ghost before = messages@;
        messages.push(
            MidiMessage::MetaEvent { delta_time: 0, event: MetaEvent::EndOfTrack, data: Vec::new() },
        );
        proof {
            assert(message_views(messages@) =~= message_views(before).push(
                MessageView::MetaEvent {
                    delta_time: 0,
                    event: MetaEvent::EndOfTrack,
                    data: Seq::<u8>::empty(),
                },
            ));
        }
        messages
    }
}

/// Messages never add to the pulses that went by.
proof fn lemma_emit_pulses(walk: Walk, notes: Seq<MidiNote>, on: bool)
    ensures
        emit(walk, notes, on).pulses <= walk.pulses,
    decreases notes.len(),
{
    if notes.len() > 0 {
        lemma_emit_pulses(walk, notes.drop_last(), on);
    }
}

} // verus!

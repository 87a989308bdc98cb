//! The MIDI engine: what messages mean, which ports are in use, and the log
//! of what came in.

use crate::text::{append_readable, owned, readable_names};
use vstd::prelude::*;

verus! {

// ── MIDI messages ───────────────────────────────────────────────────────────

/// What a MIDI message says.
#[derive(Debug, Clone, PartialEq, Eq)]
pub enum MidiMessageKind {
    NoteOn { channel: u8, note: u8, velocity: u8 },
    NoteOff { channel: u8, note: u8 },
    ControlChange { channel: u8, cc: u8, value: u8 },
    PitchBend { channel: u8, value: i16 },
    Other(Vec<u8>),
}

/// What a MIDI message says, as contracts speak of it.
pub enum MidiMessage {
    NoteOn { channel: u8, note: u8, velocity: u8 },
    NoteOff { channel: u8, note: u8 },
    ControlChange { channel: u8, cc: u8, value: u8 },
    PitchBend { channel: u8, value: i16 },
    Other(Seq<u8>),
}

impl View for MidiMessageKind {
    type V = MidiMessage;

    open spec fn view(&self) -> MidiMessage {
        match *self {
            MidiMessageKind::NoteOn { channel, note, velocity } => MidiMessage::NoteOn {
                channel,
                note,
                velocity,
            },
            MidiMessageKind::NoteOff { channel, note } => MidiMessage::NoteOff { channel, note },
            MidiMessageKind::ControlChange { channel, cc, value } => MidiMessage::ControlChange {
                channel,
                cc,
                value,
            },
            MidiMessageKind::PitchBend { channel, value } => MidiMessage::PitchBend {
                channel,
                value,
            },
            MidiMessageKind::Other(bytes) => MidiMessage::Other(bytes@),
        }
    }
}

/// A message that came in, with the time at which it came.
#[derive(Debug, Clone)]
pub struct MidiEvent {
    pub timestamp_us: u64,
    pub kind: MidiMessageKind,
}

/// The bend that two data bytes stand for: the second one gives the upper
/// seven bits, and 8192 is the middle.
pub open spec fn bend(low: u8, high: u8) -> i16 {
    ((((high as u16) << 7) | (low as u16)) - 8192) as i16
}

/// What the bytes of a message say.
///
/// The upper half of the first byte is the kind of message, the lower half its
/// channel. A note that starts with velocity zero ends.
pub open spec fn decoded(data: Seq<u8>) -> MidiMessage {
    if data.len() != 3 {
        MidiMessage::Other(data)
    } else {
        let kind = data[0] / 16;
        let channel = data[0] % 16;
        if kind == 9 && data[2] > 0 {
            MidiMessage::NoteOn { channel, note: data[1], velocity: data[2] }
        } else if kind == 8 || kind == 9 {
            MidiMessage::NoteOff { channel, note: data[1] }
        } else if kind == 11 {
            MidiMessage::ControlChange { channel, cc: data[1], value: data[2] }
        } else if kind == 14 {
            MidiMessage::PitchBend { channel, value: bend(data[1], data[2]) }
        } else {
            MidiMessage::Other(data)
        }
    }
}

pub(crate) proof fn lemma_status_byte(b: u8)
    ensures
        b & 0xF0 == (b / 16) * 16,
        b & 0x0F == b % 16,
{
    assert(b & 0xF0 == (b / 16) * 16) by (bit_vector);
    assert(b & 0x0F == b % 16) by (bit_vector);
}

fn bytes_of(data: &[u8]) -> (r: Vec<u8>)
    ensures
        r@ == data@,
{
    let n: usize = data.len();
    let mut out: Vec<u8> = Vec::new();
    let mut i: usize = 0;
    while i < n
        invariant
            n == data@.len(),
            i <= n,
            out@ == data@.take(i as int),
        decreases n - i,
    {
        out.push(data[i]);
        assert(out@ =~= data@.take(i + 1));
        i = i + 1;
    }
    assert(data@.take(n as int) =~= data@);
    out
}

impl MidiEvent {
    /// Reads a message.
    pub fn parse(stamp: u64, data: &[u8]) -> (r: Self)
        ensures
            r.timestamp_us == stamp,
            r.kind@ == decoded(data@),
    {
        let kind: MidiMessageKind = if data.len() == 0 {
            MidiMessageKind::Other(bytes_of(data))
        } else {
            let status: u8 = data[0] & 0xF0;
            let channel: u8 = data[0] & 0x0F;
            proof {
                lemma_status_byte(data@[0]);
            }
            if data.len() == 3 && status == 0x90 && data[2] > 0 {
                MidiMessageKind::NoteOn { channel, note: data[1], velocity: data[2] }
            } else if data.len() == 3 && (status == 0x80 || status == 0x90) {
                MidiMessageKind::NoteOff { channel, note: data[1] }
            } else if data.len() == 3 && status == 0xB0 {
                MidiMessageKind::ControlChange { channel, cc: data[1], value: data[2] }
            } else if data.len() == 3 && status == 0xE0 {
                let low: u8 = data[1];
                let high: u8 = data[2];
                let raw: u16 = ((high as u16) << 7) | (low as u16);
                assert(raw < 0x8000) by (bit_vector)
                    requires
                        raw == ((high as u16) << 7) | (low as u16),
                        high <= 255,
                        low <= 255,
                ;
                MidiMessageKind::PitchBend { channel, value: raw as i16 - 8192 }
            } else {
                MidiMessageKind::Other(bytes_of(data))
            }
        };
        MidiEvent { timestamp_us: stamp, kind }
    }
}

/// Two data bytes of seven bits bend between -8192 and 8191, in steps of one.
pub proof fn law_bend_of_seven_bits(low: u8, high: u8)
    requires
        low < 128,
        high < 128,
    ensures
        bend(low, high) == high * 128 + low - 8192,
{
    let raw = ((high as u16) << 7) | (low as u16);
    assert(raw == (high as u16) * 128 + (low as u16)) by (bit_vector)
        requires
            raw == ((high as u16) << 7) | (low as u16),
            low < 128,
            high < 128,
    ;
}

/// Data bytes of eight bits overlap in one: the lowest bit of the second and
/// the highest of the first count once.
pub proof fn law_bend_of_eight_bits(low: u8, high: u8)
    ensures
        bend(low, high) == high * 128 + low - 8192 - (if low >= 128 && high % 2 == 1 {
            128int
        } else {
            0
        }),
{
    let h = high as u16;
    let l = low as u16;
    let raw = (h << 7) | l;
    assert(raw == h * 128 + l - (if l >= 128 && h % 2 == 1 {
        128u16
    } else {
        0u16
    })) by (bit_vector)
        requires
            raw == (h << 7) | l,
            h < 256,
            l < 256,
    ;
}

// ── Outgoing notes ──────────────────────────────────────────────────────────

/// The bytes that start a note.
pub open spec fn note_on_message(channel: u8, note: u8, velocity: u8) -> Seq<u8> {
    seq![(0x90 + channel % 16) as u8, (note % 128) as u8, (velocity % 128) as u8]
}

/// The bytes that end a note.
pub open spec fn note_off_message(channel: u8, note: u8) -> Seq<u8> {
    seq![(0x80 + channel % 16) as u8, (note % 128) as u8, 0u8]
}

/// The bytes that start a note; each value is cut to the bits that MIDI has
/// for it.
pub fn note_on_bytes(channel: u8, note: u8, velocity: u8) -> (r: [u8; 3])
    ensures
        r@ == note_on_message(channel, note, velocity),
{
    assert(0x90 | (channel & 0x0F) == 0x90 + channel % 16) by (bit_vector);
    assert(note & 0x7F == note % 128) by (bit_vector);
    assert(velocity & 0x7F == velocity % 128) by (bit_vector);
    let r: [u8; 3] = [0x90 | (channel & 0x0F), note & 0x7F, velocity & 0x7F];
    assert(r@ =~= note_on_message(channel, note, velocity));
    r
}

/// The bytes that end a note.
pub fn note_off_bytes(channel: u8, note: u8) -> (r: [u8; 3])
    ensures
        r@ == note_off_message(channel, note),
{
    assert(0x80 | (channel & 0x0F) == 0x80 + channel % 16) by (bit_vector);
    assert(note & 0x7F == note % 128) by (bit_vector);
    let r: [u8; 3] = [0x80 | (channel & 0x0F), note & 0x7F, 0];
    assert(r@ =~= note_off_message(channel, note));
    r
}

/// A note that starts is read back as what was sent, as far as MIDI's bits
/// hold it; with no velocity left, as a note that ends.
pub proof fn law_note_on_read_back(channel: u8, note: u8, velocity: u8)
    ensures
        velocity % 128 > 0 ==> decoded(note_on_message(channel, note, velocity))
            == (MidiMessage::NoteOn {
            channel: (channel % 16) as u8,
            note: (note % 128) as u8,
            velocity: (velocity % 128) as u8,
        }),
        velocity % 128 == 0 ==> decoded(note_on_message(channel, note, velocity))
            == (MidiMessage::NoteOff { channel: (channel % 16) as u8, note: (note % 128) as u8 }),
{
}

/// A note that ends is read back as what was sent.
pub proof fn law_note_off_read_back(channel: u8, note: u8)
    ensures
        decoded(note_off_message(channel, note)) == (MidiMessage::NoteOff {
            channel: (channel % 16) as u8,
            note: (note % 128) as u8,
        }),
{
}

// ── Event log ───────────────────────────────────────────────────────────────

/// The number of events that the log keeps.
pub const MAX_LOG: usize = 256;

/// A log of at most `limit` items after one more item: the oldest one makes
/// room.
pub open spec fn logged<T>(log: Seq<T>, item: T, limit: nat) -> Seq<T> {
    if log.len() >= limit {
        log.drop_first().push(item)
    } else {
        log.push(item)
    }
}

/// A log after several more items.
pub open spec fn logged_all<T>(log: Seq<T>, items: Seq<T>, limit: nat) -> Seq<T>
    decreases items.len(),
{
    if items.len() == 0 {
        log
    } else {
        logged(logged_all(log, items.drop_last(), limit), items.last(), limit)
    }
}

/// A log that starts empty holds the newest items, in the order in which they
/// came: all of them, or as many as the limit.
pub proof fn law_log_keeps_newest<T>(items: Seq<T>, limit: nat)
    requires
        limit > 0,
    ensures
        logged_all(Seq::<T>::empty(), items, limit) == (if items.len() <= limit {
            items
        } else {
            items.skip(items.len() - limit)
        }),
    decreases items.len(),
{
    let log = logged_all(Seq::<T>::empty(), items, limit);
    if items.len() == 0 {
        assert(log =~= items);
    } else {
        let earlier = items.drop_last();
        law_log_keeps_newest(earlier, limit);
        if items.len() <= limit {
            assert(log =~= items);
        } else {
            assert(log =~= items.skip(items.len() - limit));
        }
    }
}

/// The incoming events that have not been shown yet.
#[derive(Debug, Clone)]
pub struct MidiEventLog {
    pub events: Vec<MidiEvent>,
}

impl MidiEventLog {
    /// The log never outgrows its limit.
    pub open spec fn wf(&self) -> bool {
        self.events@.len() <= MAX_LOG
    }

    /// An empty log.
    pub fn new() -> (r: Self)
        ensures
            r.events@ == Seq::<MidiEvent>::empty(),
            r.wf(),
    {
        MidiEventLog { events: Vec::new() }
    }

    /// Adds an event; a full log drops its oldest one.
    pub fn record(&mut self, event: MidiEvent)
        ensures
            final(self).events@ == logged(old(self).events@, event, MAX_LOG as nat),
            old(self).wf() ==> final(self).wf(),
    {
        if self.events.len() >= MAX_LOG {
            let _ = self.events.remove(0);
            assert(self.events@ =~= old(self).events@.drop_first());
        }
        self.events.push(event);
    }

    /// Hands out the events and leaves the log empty.
    pub fn drain_events(&mut self) -> (r: Vec<MidiEvent>)
        ensures
            r@ == old(self).events@,
            final(self).events@ == Seq::<MidiEvent>::empty(),
    {
        let mut taken: Vec<MidiEvent> = Vec::new();
        taken.append(&mut self.events);
        assert(taken@ =~= old(self).events@);
        taken
    }
}

// ── Engine ──────────────────────────────────────────────────────────────────

/// Which of the two directions are connected.
#[derive(Debug, Clone, PartialEq, Eq)]
pub enum MidiStatus {
    Disconnected,
    InputOnly,
    OutputOnly,
    Connected,
    Error(String),
}

/// The ports that exist, those that are chosen, and those that are open.
#[derive(Debug, Clone)]
pub struct MidiEngine {
    pub status: MidiStatus,
    pub input_port_names: Vec<String>,
    pub output_port_names: Vec<String>,
    /// `None`: no input.
    pub selected_input_idx: Option<usize>,
    /// `None`: no output.
    pub selected_output_idx: Option<usize>,
    pub input_open: bool,
    pub output_open: bool,
}

/// A choice among `count` ports, dropped where it names none of them.
pub open spec fn kept_choice(choice: Option<usize>, count: nat) -> Option<usize> {
    match choice {
        Some(i) => if i < count {
            choice
        } else {
            None
        },
        None => None,
    }
}

/// The status that the open directions stand for once a connection was tried.
pub open spec fn is_connection_status(status: MidiStatus, input: bool, output: bool) -> bool {
    match (input, output) {
        (true, true) => status is Connected,
        (true, false) => status is InputOnly,
        (false, true) => status is OutputOnly,
        (false, false) => status matches MidiStatus::Error(e) && e@
            == "No ports could be opened"@,
    }
}

fn keep_choice(choice: Option<usize>, count: usize) -> (r: Option<usize>)
    ensures
        r == kept_choice(choice, count as nat),
{
    match choice {
        Some(i) => if i < count {
            Some(i)
        } else {
            None
        },
        None => None,
    }
}

/// The names of the ports of one direction: those that could be read.
pub fn enumerate_ports(found: &Vec<Option<String>>) -> (r: Vec<String>)
    ensures
        r@ == readable_names(found@),
{
    let mut names: Vec<String> = Vec::new();
    append_readable(&mut names, found);
    assert(names@ =~= readable_names(found@));
    names
}

impl MidiEngine {
    /// The status tells which directions are open, and what is chosen exists.
    pub open spec fn wf(&self) -> bool {
        &&& match self.status {
            MidiStatus::Disconnected => !self.input_open && !self.output_open,
            MidiStatus::InputOnly => self.input_open && !self.output_open,
            MidiStatus::OutputOnly => !self.input_open && self.output_open,
            MidiStatus::Connected => self.input_open && self.output_open,
            MidiStatus::Error(_) => !self.input_open && !self.output_open,
        }
        &&& self.selected_input_idx matches Some(i) ==> i < self.input_port_names@.len()
        &&& self.selected_output_idx matches Some(i) ==> i < self.output_port_names@.len()
    }

    /// The choices and the lists they are made from.
    pub open spec fn same_choices(&self, other: &Self) -> bool {
        &&& self.input_port_names == other.input_port_names
        &&& self.output_port_names == other.output_port_names
        &&& self.selected_input_idx == other.selected_input_idx
        &&& self.selected_output_idx == other.selected_output_idx
    }

    /// This engine once it is disconnected.
    pub open spec fn disconnected(self) -> MidiEngine {
        MidiEngine {
            status: MidiStatus::Disconnected,
            input_open: false,
            output_open: false,
            ..self
        }
    }

    /// This engine after its ports were listed anew: it is disconnected, and a
    /// choice that names no port any more is dropped.
    pub open spec fn refreshed(self, inputs: Vec<String>, outputs: Vec<String>) -> MidiEngine {
        MidiEngine {
            input_port_names: inputs,
            output_port_names: outputs,
            selected_input_idx: kept_choice(self.selected_input_idx, inputs@.len()),
            selected_output_idx: kept_choice(self.selected_output_idx, outputs@.len()),
            ..self.disconnected()
        }
    }

    /// An engine over the ports that were found; the first of each direction
    /// is chosen.
    pub fn new(inputs: Vec<String>, outputs: Vec<String>) -> (r: Self)
        ensures
            r.wf(),
            r.status is Disconnected,
            r.input_port_names == inputs,
            r.output_port_names == outputs,
            r.selected_input_idx == (if inputs@.len() == 0 {
                None
            } else {
                Some(0usize)
            }),
            r.selected_output_idx == (if outputs@.len() == 0 {
                None
            } else {
                Some(0usize)
            }),
    {
        let selected_input_idx: Option<usize> = if inputs.len() == 0 {
            None
        } else {
            Some(0)
        };
        let selected_output_idx: Option<usize> = if outputs.len() == 0 {
            None
        } else {
            Some(0)
        };
        MidiEngine {
            status: MidiStatus::Disconnected,
            input_port_names: inputs,
            output_port_names: outputs,
            selected_input_idx,
            selected_output_idx,
            input_open: false,
            output_open: false,
        }
    }

    /// Takes over the ports that were found now. Everything is disconnected,
    /// and a choice that no longer exists is dropped.
    pub fn refresh_ports(&mut self, inputs: Vec<String>, outputs: Vec<String>)
        requires
            old(self).wf(),
        ensures
            final(self).wf(),
            *final(self) == old(self).refreshed(inputs, outputs),
    {
        let was_connected: bool = !matches!(self.status, MidiStatus::Disconnected);
        if was_connected {
            self.disconnect();
        }
        self.input_port_names = inputs;
        self.output_port_names = outputs;
        self.selected_input_idx = keep_choice(self.selected_input_idx, self.input_port_names.len());
        self.selected_output_idx =
        keep_choice(self.selected_output_idx, self.output_port_names.len());
    }

    /// Takes over the outcome of opening the chosen ports: which of them could
    /// be opened. A direction without a choice stays closed.
    pub fn connect(&mut self, input_opened: bool, output_opened: bool)
        requires
            old(self).wf(),
        ensures
            final(self).wf(),
            final(self).input_open == (old(self).selected_input_idx is Some && input_opened),
            final(self).output_open == (old(self).selected_output_idx is Some && output_opened),
            is_connection_status(
                final(self).status,
                final(self).input_open,
                final(self).output_open,
            ),
            final(self).same_choices(old(self)),
    {
        self.disconnect();
        let input: bool = self.selected_input_idx.is_some() && input_opened;
        let output: bool = self.selected_output_idx.is_some() && output_opened;
        self.status = if input && output {
            MidiStatus::Connected
        } else if input {
            MidiStatus::InputOnly
        } else if output {
            MidiStatus::OutputOnly
        } else {
            MidiStatus::Error(owned("No ports could be opened"))
        };
        self.input_open = input;
        self.output_open = output;
    }

    /// Closes both directions.
    pub fn disconnect(&mut self)
        ensures
            old(self).wf() ==> final(self).wf(),
            *final(self) == old(self).disconnected(),
    {
        self.input_open = false;
        self.output_open = false;
        self.status = MidiStatus::Disconnected;
    }

    /// The bytes to put on the output, if it is open.
    pub fn send(&self, bytes: &[u8]) -> (r: Option<Vec<u8>>)
        ensures
            match r {
                Some(sent) => self.output_open && sent@ == bytes@,
                None => !self.output_open,
            },
    {
        if self.output_open {
            Some(bytes_of(bytes))
        } else {
            None
        }
    }

    /// The bytes of a starting note to put on the output, if it is open.
    pub fn send_note_on(&self, channel: u8, note: u8, velocity: u8) -> (r: Option<Vec<u8>>)
        ensures
            match r {
                Some(sent) => self.output_open && sent@ == note_on_message(channel, note, velocity),
                None => !self.output_open,
            },
    {
        let message: [u8; 3] = note_on_bytes(channel, note, velocity);
        self.send(message.as_slice())
    }

    /// The bytes of an ending note to put on the output, if it is open.
    pub fn send_note_off(&self, channel: u8, note: u8) -> (r: Option<Vec<u8>>)
        ensures
            match r {
                Some(sent) => self.output_open && sent@ == note_off_message(channel, note),
                None => !self.output_open,
            },
    {
        let message: [u8; 3] = note_off_bytes(channel, note);
        self.send(message.as_slice())
    }
}

// ── Laws of messages and logs ───────────────────────────────────────────────

/// A message of three bytes says what MIDI's table gives for its first byte;
/// everything else is kept byte for byte.
pub proof fn law_messages_say_what_midi_says(data: Seq<u8>, channel: u8, d1: u8, d2: u8)
    requires
        channel < 16,
    ensures
        d2 > 0 ==> decoded(seq![(0x90 + channel) as u8, d1, d2]) == (MidiMessage::NoteOn {
            channel,
            note: d1,
            velocity: d2,
        }),
        decoded(seq![(0x90 + channel) as u8, d1, 0u8]) == (MidiMessage::NoteOff {
            channel,
            note: d1,
        }),
        decoded(seq![(0x80 + channel) as u8, d1, d2]) == (MidiMessage::NoteOff {
            channel,
            note: d1,
        }),
        decoded(seq![(0xB0 + channel) as u8, d1, d2]) == (MidiMessage::ControlChange {
            channel,
            cc: d1,
            value: d2,
        }),
        d1 < 128 && d2 < 128 ==> decoded(seq![(0xE0 + channel) as u8, d1, d2])
            == (MidiMessage::PitchBend { channel, value: (d2 * 128 + d1 - 8192) as i16 }),
        data.len() != 3 ==> decoded(data) == MidiMessage::Other(data),
        data.len() == 3 && !(0x80 <= data[0] <= 0x9F || 0xB0 <= data[0] <= 0xBF || 0xE0 <= data[0]
            <= 0xEF) ==> decoded(data) == MidiMessage::Other(data),
{
    let on = (0x90 + channel) as u8;
    let off = (0x80 + channel) as u8;
    let change = (0xB0 + channel) as u8;
    let wheel = (0xE0 + channel) as u8;
    assert(on / 16 == 9 && on % 16 == channel);
    assert(off / 16 == 8 && off % 16 == channel);
    assert(change / 16 == 11 && change % 16 == channel);
    assert(wheel / 16 == 14 && wheel % 16 == channel);
    if d1 < 128 && d2 < 128 {
        law_bend_of_seven_bits(d1, d2);
    }
}

/// The bytes that start or end a note: its channel in the lower half of the
/// first, behind 9 or 8; then the note, and the velocity or zero, in seven
/// bits each.
pub proof fn law_note_bytes(channel: u8, note: u8, velocity: u8)
    requires
        channel < 16,
        note < 128,
        velocity < 128,
    ensures
        note_on_message(channel, note, velocity) == seq![(0x90 + channel) as u8, note, velocity],
        note_off_message(channel, note) == seq![(0x80 + channel) as u8, note, 0u8],
{
    assert(note_on_message(channel, note, velocity) =~= seq![
        (0x90 + channel) as u8,
        note,
        velocity,
    ]);
    assert(note_off_message(channel, note) =~= seq![(0x80 + channel) as u8, note, 0u8]);
}

/// What does not fit into MIDI's bits is cut off, and nothing else is.
pub proof fn law_note_bytes_are_cut(channel: u8, note: u8, velocity: u8)
    ensures
        note_on_message(channel, note, velocity) == note_on_message(
            (channel % 16) as u8,
            (note % 128) as u8,
            (velocity % 128) as u8,
        ),
        note_off_message(channel, note) == note_off_message(
            (channel % 16) as u8,
            (note % 128) as u8,
        ),
{
}

/// However much it held before, a log keeps the newest items, in the order in
/// which they came, up to its limit.
pub proof fn law_log_drops_the_oldest<T>(log: Seq<T>, items: Seq<T>, limit: nat)
    requires
        0 < limit,
        log.len() <= limit,
    ensures
        logged_all(log, items, limit) == (if log.len() + items.len() <= limit {
            log + items
        } else {
            (log + items).skip(log.len() + items.len() - limit)
        }),
    decreases items.len(),
{
    let all = log + items;
    if items.len() == 0 {
        assert(all =~= log);
    } else {
        let init = items.drop_last();
        law_log_drops_the_oldest(log, init, limit);
        assert(log + init =~= all.drop_last());
        assert(all.last() == items.last());
        let now = logged_all(log, items, limit);
        if all.len() <= limit {
            assert(now =~= all);
        } else {
            assert(now =~= all.skip(all.len() - limit));
        }
    }
}

/// A choice of a port is kept exactly while it names one.
pub proof fn law_choices_that_name_nothing_are_dropped(i: usize, count: nat)
    ensures
        kept_choice(None, count) is None,
        i < count ==> kept_choice(Some(i), count) == Some(i),
        i >= count ==> kept_choice(Some(i), count) is None,
{
}

/// The status tells which directions are open; where none is, it is an error.
pub proof fn law_status_tells_what_is_open(status: MidiStatus, input: bool, output: bool)
    requires
        is_connection_status(status, input, output),
    ensures
        status is Connected <==> input && output,
        status is InputOnly <==> input && !output,
        status is OutputOnly <==> !input && output,
        status is Error <==> !input && !output,
        status matches MidiStatus::Error(e) ==> e@ == "No ports could be opened"@,
{
}

/// Disconnecting closes both directions and keeps the choices; listing the
/// ports anew does so too, and takes the ports over.
pub proof fn law_disconnecting_keeps_the_choices(
    engine: MidiEngine,
    inputs: Vec<String>,
    outputs: Vec<String>,
)
    ensures
        engine.disconnected().status is Disconnected,
        !engine.disconnected().input_open && !engine.disconnected().output_open,
        engine.disconnected().selected_input_idx == engine.selected_input_idx,
        engine.disconnected().selected_output_idx == engine.selected_output_idx,
        engine.disconnected().input_port_names == engine.input_port_names,
        engine.disconnected().output_port_names == engine.output_port_names,
        engine.refreshed(inputs, outputs).status is Disconnected,
        engine.refreshed(inputs, outputs).input_port_names == inputs,
        engine.refreshed(inputs, outputs).output_port_names == outputs,
        engine.refreshed(inputs, outputs).selected_input_idx == (
        match engine.selected_input_idx {
            Some(i) => if i < inputs@.len() {
                Some(i)
            } else {
                None
            },
            None => None,
        }),
        engine.refreshed(inputs, outputs).selected_output_idx == (
        match engine.selected_output_idx {
            Some(i) => if i < outputs@.len() {
                Some(i)
            } else {
                None
            },
            None => None,
        }),
{
}

/// Engines with the same choices have the same ports to choose from, and the
/// same ones chosen.
pub proof fn law_same_choices_are_the_same(a: MidiEngine, b: MidiEngine)
    requires
        a.same_choices(&b),
    ensures
        a.input_port_names == b.input_port_names,
        a.output_port_names == b.output_port_names,
        a.selected_input_idx == b.selected_input_idx,
        a.selected_output_idx == b.selected_output_idx,
{
}

} // verus!

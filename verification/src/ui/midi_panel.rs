//! The MIDI settings window and the piano.

use crate::midi_engine::{
    logged, logged_all, MidiEngine, MidiEvent, MidiMessage, MidiMessageKind, MidiStatus,
};
use crate::text::{
    byte_list, decimal, owned, push_byte_list, push_decimal, push_signed, signed_decimal,
};
use crate::ui::{texts, Color};
use vstd::prelude::*;
use vstd::string::*;

verus! {

// ── Settings window ─────────────────────────────────────────────────────────

/// The MIDI settings window.
#[derive(Debug, Clone, Copy, PartialEq, Eq)]
pub struct MidiSettingsPanel {
    pub is_open: bool,
}

impl Default for MidiSettingsPanel {
    /// A closed window.
    fn default() -> (r: Self)
        ensures
            !r.is_open,
    {
        MidiSettingsPanel { is_open: false }
    }
}

/// What the connect button does.
#[derive(Debug, Clone, Copy, PartialEq, Eq, Structural)]
pub enum MidiSettingsRequest {
    Connect,
    Disconnect,
}

/// The ports that were found when they were listed anew.
#[derive(Debug, Clone, PartialEq, Eq)]
pub struct FoundPorts {
    pub inputs: Vec<String>,
    pub outputs: Vec<String>,
}

/// What the user did in the MIDI settings window in a frame.
#[derive(Debug, Clone, PartialEq, Eq)]
pub struct MidiSettingsInput {
    pub closed: bool,
    /// The connect button was pressed.
    pub connect_pressed: bool,
    /// The ports were asked to be listed anew, and these were found.
    pub refreshed: Option<FoundPorts>,
}

/// How the status is shown.
pub open spec fn midi_banner_of(status: MidiStatus) -> (Seq<char>, Color) {
    match status {
        MidiStatus::Disconnected => ("● Disconnected"@, Color::DarkGray),
        MidiStatus::InputOnly => ("● Input only"@, Color::Yellow),
        MidiStatus::OutputOnly => ("● Output only"@, Color::Yellow),
        MidiStatus::Connected => ("● Connected"@, Color::Rgb(100, 220, 100)),
        MidiStatus::Error(_) => ("✗  Error"@, Color::Rgb(255, 90, 90)),
    }
}

/// How the status is shown.
pub fn midi_banner(status: &MidiStatus) -> (r: (&'static str, Color))
    ensures
        (r.0@, r.1) == midi_banner_of(*status),
{
    match status {
        MidiStatus::Disconnected => ("● Disconnected", Color::DarkGray),
        MidiStatus::InputOnly => ("● Input only", Color::Yellow),
        MidiStatus::OutputOnly => ("● Output only", Color::Yellow),
        MidiStatus::Connected => ("● Connected", Color::Rgb(100, 220, 100)),
        MidiStatus::Error(_) => ("✗  Error", Color::Rgb(255, 90, 90)),
    }
}

/// What goes below the status: the reason of an error.
pub fn midi_error(status: &MidiStatus) -> (r: Option<&String>)
    ensures
        match *status {
            MidiStatus::Error(e) => r matches Some(m) && *m == e,
            _ => r is None,
        },
{
    match status {
        MidiStatus::Error(e) => Some(e),
        _ => None,
    }
}

/// The name of a chosen port, or "None".
pub open spec fn port_label_of(choice: Option<usize>, names: Seq<String>) -> Seq<char> {
    match choice {
        Some(i) => if i < names.len() {
            names[i as int]@
        } else {
            "None"@
        },
        None => "None"@,
    }
}

/// The name of a chosen port, or "None".
pub fn port_label(choice: Option<usize>, names: &Vec<String>) -> (r: String)
    ensures
        r@ == port_label_of(choice, names@),
{
    match choice {
        Some(i) => if i < names.len() {
            owned(names[i].as_str())
        } else {
            owned("None")
        },
        None => owned("None"),
    }
}

/// Whether anything is connected, so that it can be disconnected.
pub open spec fn is_connected(status: MidiStatus) -> bool {
    !(status is Disconnected || status is Error)
}

/// What the connect button does.
pub open spec fn button_request(status: MidiStatus) -> MidiSettingsRequest {
    if is_connected(status) {
        MidiSettingsRequest::Disconnect
    } else {
        MidiSettingsRequest::Connect
    }
}

/// The label of the connect button, and what it does.
pub fn connect_button(status: &MidiStatus) -> (r: (&'static str, MidiSettingsRequest))
    ensures
        r.0@ == (if is_connected(*status) {
            "⏹  Disconnect"@
        } else {
            "▶  Connect"@
        }),
        r.1 == button_request(*status),
{
    match status {
        MidiStatus::Disconnected => ("▶  Connect", MidiSettingsRequest::Connect),
        MidiStatus::Error(_) => ("▶  Connect", MidiSettingsRequest::Connect),
        _ => ("⏹  Disconnect", MidiSettingsRequest::Disconnect),
    }
}

/// What pressing the connect button does to the engine by itself: it
/// disconnects one that is connected. One that is not is left to be
/// connected.
pub open spec fn after_press(engine: MidiEngine) -> MidiEngine {
    if is_connected(engine.status) {
        engine.disconnected()
    } else {
        engine
    }
}

/// Presses the connect button. Returns what it does.
pub fn press(engine: &mut MidiEngine) -> (r: MidiSettingsRequest)
    requires
        old(engine).wf(),
    ensures
        final(engine).wf(),
        *final(engine) == after_press(*old(engine)),
        r == button_request(old(engine).status),
{
    let (_, request) = connect_button(&engine.status);
    match request {
        MidiSettingsRequest::Disconnect => engine.disconnect(),
        MidiSettingsRequest::Connect => {},
    }
    request
}

impl MidiSettingsPanel {
    /// Opens the window over the ports that exist now.
    pub fn open(&mut self, engine: &mut MidiEngine, inputs: Vec<String>, outputs: Vec<String>)
        requires
            old(engine).wf(),
        ensures
            final(self).is_open,
            final(engine).wf(),
            *final(engine) == old(engine).refreshed(inputs, outputs),
    {
        engine.refresh_ports(inputs, outputs);
        self.is_open = true;
    }

    /// Ends a frame of the window. While it is open, the connect button
    /// disconnects an engine that is connected, and a new list of ports is
    /// taken over. Returns what the button did: the caller drops the ports of
    /// an engine that was disconnected, and opens those of one to connect.
    pub fn show(&mut self, engine: &mut MidiEngine, input: MidiSettingsInput) -> (r: Option<
        MidiSettingsRequest,
    >)
        requires
            old(engine).wf(),
        ensures
            final(engine).wf(),
            final(self).is_open == (old(self).is_open && !input.closed),
            r == (if old(self).is_open && input.connect_pressed {
                Some(button_request(old(engine).status))
            } else {
                None
            }),
            if old(self).is_open {
                let pressed = if input.connect_pressed {
                    after_press(*old(engine))
                } else {
                    *old(engine)
                };
                *final(engine) == (match input.refreshed {
                    Some(found) => pressed.refreshed(found.inputs, found.outputs),
                    None => pressed,
                })
            } else {
                *final(engine) == *old(engine)
            },
    {
        if !self.is_open {
            return None;
        }
        let request: Option<MidiSettingsRequest> = if input.connect_pressed {
            Some(press(engine))
        } else {
            None
        };
        match input.refreshed {
            Some(found) => engine.refresh_ports(found.inputs, found.outputs),
            None => {},
        }
        self.is_open = !input.closed;
        request
    }
}

// ── Notes ───────────────────────────────────────────────────────────────────

/// The semitones of the white keys above the C of their octave.
pub const WHITE_OFFSETS: [u8; 7] = [0, 2, 4, 5, 7, 9, 11];

/// The C at or below a note.
pub open spec fn c_below(note: u8) -> int {
    note - note % 12
}

/// How many semitones the white key at `white_idx` lies above the first C.
/// The octaves are counted in a byte.
pub open spec fn white_semitones(white_idx: usize) -> int {
    WHITE_OFFSETS@[white_idx as int % 7] + (white_idx as int / 7) % 256 * 12
}

/// Whether a white key has a black key to its right.
pub open spec fn has_black_key(white_idx: usize) -> bool {
    white_idx as int % 7 != 2 && white_idx as int % 7 != 6
}

/// A note, or the highest number there is.
pub open spec fn capped(note: int) -> u8 {
    if note > 255 {
        255
    } else {
        note as u8
    }
}

/// The note of a white key of a keyboard that starts in the octave of
/// `start`.
pub open spec fn white_note(start: u8, white_idx: usize) -> u8 {
    capped(c_below(start) + white_semitones(white_idx))
}

/// The note of the black key to the right of a white key, if there is one.
pub open spec fn black_note(start: u8, white_idx: usize) -> Option<u8> {
    if has_black_key(white_idx) {
        Some(capped(c_below(start) + white_semitones(white_idx) + 1))
    } else {
        None
    }
}

fn add_capped(a: u8, b: u8) -> (r: u8)
    ensures
        r == capped(a + b),
{
    if b > 255 - a {
        255
    } else {
        a + b
    }
}

fn octaves(white_idx: usize) -> (r: u8)
    ensures
        r == (white_idx as int / 7) % 256,
{
    ((white_idx / 7) % 256) as u8
}

/// The note of a white key of a keyboard that starts in the octave of
/// `start`.
pub fn white_key_note(start: u8, white_idx: usize) -> (r: u8)
    requires
        white_semitones(white_idx) <= 255,
    ensures
        r == white_note(start, white_idx),
{
    let c_of_octave: u8 = start - start % 12;
    let offsets: [u8; 7] = WHITE_OFFSETS;
    let semitones: u8 = offsets[white_idx % 7] + octaves(white_idx) * 12;
    add_capped(c_of_octave, semitones)
}

/// The note of the black key to the right of a white key, if there is one.
pub fn black_key_note(start: u8, white_idx: usize) -> (r: Option<u8>)
    requires
        has_black_key(white_idx) ==> white_semitones(white_idx) + 1 <= 255,
    ensures
        r == black_note(start, white_idx),
{
    let pos_in_octave: usize = white_idx % 7;
    if pos_in_octave == 2 || pos_in_octave == 6 {
        return None;
    }
    let c_of_octave: u8 = start - start % 12;
    let offsets: [u8; 7] = WHITE_OFFSETS;
    let semitones: u8 = offsets[pos_in_octave] + 1 + octaves(white_idx) * 12;
    Some(add_capped(c_of_octave, semitones))
}

/// The name of a note within its octave.
pub open spec fn pitch_name(pitch: int) -> Seq<char> {
    if pitch == 0 {
        "C"@
    } else if pitch == 1 {
        "C#"@
    } else if pitch == 2 {
        "D"@
    } else if pitch == 3 {
        "D#"@
    } else if pitch == 4 {
        "E"@
    } else if pitch == 5 {
        "F"@
    } else if pitch == 6 {
        "F#"@
    } else if pitch == 7 {
        "G"@
    } else if pitch == 8 {
        "G#"@
    } else if pitch == 9 {
        "A"@
    } else if pitch == 10 {
        "A#"@
    } else {
        "B"@
    }
}

/// The octave that a note is in; note 60 is in octave 4.
pub open spec fn octave_of(note: u8) -> int {
    note / 12 - 1
}

/// The name of a note with its octave.
pub open spec fn note_text(note: u8) -> Seq<char> {
    pitch_name(note as int % 12) + signed_decimal(octave_of(note))
}

fn name_of_pitch(pitch: u8) -> (r: &'static str)
    requires
        pitch < 12,
    ensures
        r@ == pitch_name(pitch as int),
{
    if pitch == 0 {
        "C"
    } else if pitch == 1 {
        "C#"
    } else if pitch == 2 {
        "D"
    } else if pitch == 3 {
        "D#"
    } else if pitch == 4 {
        "E"
    } else if pitch == 5 {
        "F"
    } else if pitch == 6 {
        "F#"
    } else if pitch == 7 {
        "G"
    } else if pitch == 8 {
        "G#"
    } else if pitch == 9 {
        "A"
    } else if pitch == 10 {
        "A#"
    } else {
        "B"
    }
}

/// The name of a note with its octave.
pub fn note_name(note: u8) -> (r: String)
    ensures
        r@ == note_text(note),
{
    let mut out: String = owned(name_of_pitch(note % 12));
    push_signed(&mut out, (note / 12) as i32 - 1);
    out
}

// ── The log ─────────────────────────────────────────────────────────────────

/// The number of lines that the piano's log keeps.
pub const MAX_LINES: usize = 64;

/// A channel as the user counts it.
pub open spec fn shown_channel(channel: u8) -> Seq<char> {
    decimal((channel + 1) as nat)
}

/// An incoming message in words.
pub open spec fn described(message: MidiMessage) -> Seq<char> {
    match message {
        MidiMessage::NoteOn { channel, note, velocity } => "NoteOn  ch:"@ + shown_channel(channel)
            + " note:"@ + decimal(note as nat) + " ("@ + note_text(note) + ") vel:"@ + decimal(
            velocity as nat,
        ),
        MidiMessage::NoteOff { channel, note } => "NoteOff ch:"@ + shown_channel(channel)
            + " note:"@ + decimal(note as nat) + " ("@ + note_text(note) + ")"@,
        MidiMessage::ControlChange { channel, cc, value } => "CC      ch:"@ + shown_channel(
            channel,
        ) + " cc:"@ + decimal(cc as nat) + " val:"@ + decimal(value as nat),
        MidiMessage::PitchBend { channel, value } => "PBend   ch:"@ + shown_channel(channel)
            + " val:"@ + signed_decimal(value as int),
        MidiMessage::Other(bytes) => "Other   "@ + byte_list(bytes),
    }
}

/// Whether a message's channel can be counted from one.
pub open spec fn channel_fits(message: MidiMessage) -> bool {
    match message {
        MidiMessage::NoteOn { channel, .. } => channel < 255,
        MidiMessage::NoteOff { channel, .. } => channel < 255,
        MidiMessage::ControlChange { channel, .. } => channel < 255,
        MidiMessage::PitchBend { channel, .. } => channel < 255,
        MidiMessage::Other(_) => true,
    }
}

fn push_channel(out: &mut String, channel: u8)
    requires
        channel < 255,
    ensures
        final(out)@ == old(out)@ + shown_channel(channel),
{
    push_decimal(out, channel as u64 + 1);
}

/// An incoming message in words.
pub fn describe(kind: &MidiMessageKind) -> (r: String)
    requires
        channel_fits(kind@),
    ensures
        r@ == described(kind@),
{
    match kind {
        MidiMessageKind::NoteOn { channel, note, velocity } => {
            let mut out: String = owned("NoteOn  ch:");
            push_channel(&mut out, *channel);
            out.append(" note:");
            push_decimal(&mut out, *note as u64);
            out.append(" (");
            let name: String = note_name(*note);
            out.append(name.as_str());
            out.append(") vel:");
            push_decimal(&mut out, *velocity as u64);
            out
        },
        MidiMessageKind::NoteOff { channel, note } => {
            let mut out: String = owned("NoteOff ch:");
            push_channel(&mut out, *channel);
            out.append(" note:");
            push_decimal(&mut out, *note as u64);
            out.append(" (");
            let name: String = note_name(*note);
            out.append(name.as_str());
            out.append(")");
            out
        },
        MidiMessageKind::ControlChange { channel, cc, value } => {
            let mut out: String = owned("CC      ch:");
            push_channel(&mut out, *channel);
            out.append(" cc:");
            push_decimal(&mut out, *cc as u64);
            out.append(" val:");
            push_decimal(&mut out, *value as u64);
            out
        },
        MidiMessageKind::PitchBend { channel, value } => {
            let mut out: String = owned("PBend   ch:");
            push_channel(&mut out, *channel);
            out.append(" val:");
            push_signed(&mut out, *value as i32);
            out
        },
        MidiMessageKind::Other(bytes) => {
            let mut out: String = owned("Other   ");
            push_byte_list(&mut out, bytes);
            out
        },
    }
}

fn push_line(log: &mut Vec<String>, line: String)
    ensures
        texts(final(log)@) == logged(texts(old(log)@), line@, MAX_LINES as nat),
{
    if log.len() >= MAX_LINES {
        let _ = log.remove(0);
        assert(texts(log@) =~= texts(old(log)@).drop_first());
    }
    let ghost before = log@;
    let ghost text = line@;
    log.push(line);
    assert(texts(log@) =~= texts(before).push(text));
}

/// The descriptions of several messages, in order.
pub open spec fn described_all(events: Seq<MidiEvent>) -> Seq<Seq<char>> {
    events.map_values(|e: MidiEvent| described(e.kind@))
}

// ── The piano ───────────────────────────────────────────────────────────────

/// The width and height of a white key, in pixels.
pub const WHITE_KEY_WIDTH: i64 = 24;

pub const WHITE_KEY_HEIGHT: i64 = 80;

/// The width and height of a black key, in pixels.
pub const BLACK_KEY_WIDTH: i64 = 16;

pub const BLACK_KEY_HEIGHT: i64 = 50;

/// The most white keys that a keyboard can have before its notes run out of
/// numbers.
pub const MAX_WHITE_KEYS: usize = 149;

/// A message that the piano sends.
#[derive(Debug, Clone, Copy, PartialEq, Eq, Structural)]
pub enum PianoMessage {
    NoteOn { channel: u8, note: u8, velocity: u8 },
    NoteOff { channel: u8, note: u8 },
}

/// A position in pixels from the keyboard's upper left corner: the whole
/// pixels at or below it, and at or above it.
#[derive(Debug, Clone, Copy, PartialEq, Eq)]
pub struct PointerPosition {
    pub x_floor: i64,
    pub x_ceil: i64,
    pub y_floor: i64,
    pub y_ceil: i64,
}

/// What the pointer does in one frame.
#[derive(Debug, Clone, Copy, PartialEq, Eq)]
pub struct PointerFrame {
    /// `None`: it is not over the keyboard.
    pub position: Option<PointerPosition>,
    /// Its button went down on the keyboard, and is still down.
    pub is_down: bool,
    /// A drag ended in this frame.
    pub drag_stopped: bool,
}

/// The controls above the keyboard, as the user left them in a frame.
#[derive(Debug, Clone, Copy, PartialEq, Eq)]
pub struct PianoControls {
    pub octave_down: bool,
    pub octave_up: bool,
    pub velocity: u8,
    /// The channel, counted from one.
    pub shown_channel: u8,
}

/// The piano. It tracks held keys, so that each note that it starts is ended.
#[derive(Debug, Clone)]
pub struct PianoWidget {
    /// The notes that are held by the pointer.
    pub held_notes: Vec<u8>,
    /// The note of the key under the pointer.
    pub hovered_note: Option<u8>,
    /// A note of the octave that the keyboard starts in.
    pub start_note: u8,
    /// The number of white keys.
    pub white_key_count: usize,
    /// The MIDI channel, counted from zero.
    pub channel: u8,
    /// The velocity of the notes that it starts.
    pub velocity: u8,
    /// The latest events, in words.
    pub event_log: Vec<String>,
}

impl Default for PianoWidget {
    /// Four octaves up from C2, with no key held.
    fn default() -> (r: Self)
        ensures
            r.wf(),
            r.held_notes@.len() == 0,
            r.hovered_note is None,
            r.start_note == 36,
            r.white_key_count == 28,
            r.channel == 0,
            r.velocity == 100,
            r.event_log@.len() == 0,
    {
        PianoWidget {
            held_notes: Vec::new(),
            hovered_note: None,
            start_note: 36,
            white_key_count: 28,
            channel: 0,
            velocity: 100,
            event_log: Vec::new(),
        }
    }
}

/// Whether a position is on the black key to the right of a white key. The
/// edges of the key belong to it.
pub open spec fn on_black_key(position: PointerPosition, white_idx: int) -> bool {
    let left = white_idx * WHITE_KEY_WIDTH + WHITE_KEY_WIDTH - BLACK_KEY_WIDTH / 2;
    &&& left <= position.x_floor
    &&& position.x_ceil <= left + BLACK_KEY_WIDTH
    &&& 0 <= position.y_floor
    &&& position.y_ceil <= BLACK_KEY_HEIGHT
}

/// The white key that a position is on or below; what is left of the keyboard
/// counts as its first key.
pub open spec fn white_key_at(position: PointerPosition) -> int {
    if position.x_floor < 0 {
        0
    } else {
        position.x_floor as int / WHITE_KEY_WIDTH as int
    }
}

/// Whether a position is on the black key to the right of one of the first
/// `count` white keys.
pub open spec fn hits_black_key(position: PointerPosition, count: usize) -> bool {
    exists|wi: usize| wi < count && has_black_key(wi) && #[trigger] on_black_key(position, wi as int)
}

/// Whether a note is that of the key at a position. Black keys lie on top.
pub open spec fn is_note_at(
    start: u8,
    count: usize,
    position: PointerPosition,
    note: Option<u8>,
) -> bool {
    if hits_black_key(position, count) {
        exists|wi: usize|
            {
                &&& wi < count
                &&& has_black_key(wi)
                &&& #[trigger] on_black_key(position, wi as int)
                &&& note == black_note(start, wi)
            }
    } else if white_key_at(position) < count {
        note == Some(white_note(start, white_key_at(position) as usize))
    } else {
        note is None
    }
}

/// A position is on at most one black key.
pub proof fn law_one_black_key(position: PointerPosition, a: int, b: int)
    requires
        position.x_floor <= position.x_ceil,
        on_black_key(position, a),
        on_black_key(position, b),
    ensures
        a == b,
{
}

proof fn lemma_keys_fit(white_idx: usize)
    requires
        white_idx < MAX_WHITE_KEYS,
    ensures
        0 <= white_semitones(white_idx) <= 255,
        has_black_key(white_idx) ==> white_semitones(white_idx) + 1 <= 255,
{
    let rest = white_idx as int % 7;
    let octave = white_idx as int / 7;
    assert(0 <= octave <= 21);
    assert(octave % 256 == octave);
    assert(rest == 0 || rest == 1 || rest == 2 || rest == 3 || rest == 4 || rest == 5 || rest == 6);
    assert(octave == 21 ==> rest <= 1);
}

/// The note of the key at a position.
pub fn note_at(start: u8, count: usize, position: &PointerPosition) -> (r: Option<u8>)
    requires
        count <= MAX_WHITE_KEYS,
    ensures
        is_note_at(start, count, *position, r),
{
    let mut wi: usize = 0;
    while wi < count
        invariant
            wi <= count <= MAX_WHITE_KEYS,
            forall|k: usize|
                k < wi && has_black_key(k) ==> !(#[trigger] on_black_key(*position, k as int)),
        decreases count - wi,
    {
        proof {
            lemma_keys_fit(wi);
        }
        match black_key_note(start, wi) {
            Some(note) => {
                let left: i64 = wi as i64 * WHITE_KEY_WIDTH + WHITE_KEY_WIDTH - BLACK_KEY_WIDTH / 2;
                if left <= position.x_floor && position.x_ceil <= left + BLACK_KEY_WIDTH && 0
                    <= position.y_floor && position.y_ceil <= BLACK_KEY_HEIGHT {
                    assert(on_black_key(*position, wi as int));
                    return Some(note);
                }
                assert(!on_black_key(*position, wi as int));
            },
            None => {},
        }
        wi = wi + 1;
    }
    assert(!hits_black_key(*position, count));
    let at: i64 = if position.x_floor < 0 {
        0
    } else {
        position.x_floor / WHITE_KEY_WIDTH
    };
    if at < count as i64 {
        proof {
            lemma_keys_fit(at as usize);
        }
        Some(white_key_note(start, at as usize))
    } else {
        None
    }
}

/// The notes other than one.
pub open spec fn others(notes: Seq<u8>, note: u8) -> Seq<u8>
    decreases notes.len(),
{
    if notes.len() == 0 {
        Seq::empty()
    } else if notes.last() == note {
        others(notes.drop_last(), note)
    } else {
        others(notes.drop_last(), note).push(notes.last())
    }
}

/// The messages that end several notes.
pub open spec fn note_offs(channel: u8, notes: Seq<u8>) -> Seq<PianoMessage> {
    notes.map_values(|note: u8| PianoMessage::NoteOff { channel, note })
}

/// The line that the log gets when a key is pressed.
pub open spec fn pressed_line(channel: u8, note: u8, velocity: u8) -> Seq<char> {
    "► NoteOn  ch:"@ + shown_channel(channel) + " "@ + note_text(note) + " vel:"@ + decimal(
        velocity as nat,
    )
}

/// The line that the log gets when a key is released.
pub open spec fn released_line(channel: u8, note: u8) -> Seq<char> {
    "◀ NoteOff ch:"@ + shown_channel(channel) + " "@ + note_text(note)
}

/// The lines that the log gets when several keys are released.
pub open spec fn released_lines(channel: u8, notes: Seq<u8>) -> Seq<Seq<char>> {
    notes.map_values(|note: u8| released_line(channel, note))
}

/// What one frame of the pointer comes to.
#[verifier::ext_equal]
pub struct PianoFrame {
    pub held: Seq<u8>,
    pub messages: Seq<PianoMessage>,
    pub lines: Seq<Seq<char>>,
}

/// What one frame of the pointer comes to: once its button is up, every held
/// note ends; while it is down on a key, that key's note is held and every
/// other one ends.
pub open spec fn piano_frame(
    held: Seq<u8>,
    hovered: Option<u8>,
    is_down: bool,
    drag_stopped: bool,
    channel: u8,
    velocity: u8,
) -> PianoFrame {
    let lets_go = drag_stopped || !is_down;
    let kept = if lets_go {
        Seq::empty()
    } else {
        held
    };
    let ended = if lets_go {
        held
    } else {
        Seq::empty()
    };
    if is_down && hovered is Some {
        let note = hovered->0;
        let starts = !kept.contains(note);
        PianoFrame {
            held: seq![note],
            messages: note_offs(channel, ended) + (if starts {
                seq![PianoMessage::NoteOn { channel, note, velocity }]
            } else {
                Seq::empty()
            }) + note_offs(channel, others(kept, note)),
            lines: (if starts {
                seq![pressed_line(channel, note, velocity)]
            } else {
                Seq::empty()
            }) + released_lines(channel, ended),
        }
    } else {
        PianoFrame {
            held: kept,
            messages: note_offs(channel, ended),
            lines: released_lines(channel, ended),
        }
    }
}

fn pressed(channel: u8, note: u8, velocity: u8) -> (r: String)
    requires
        channel < 255,
    ensures
        r@ == pressed_line(channel, note, velocity),
{
    let mut out: String = owned("► NoteOn  ch:");
    push_channel(&mut out, channel);
    out.append(" ");
    let name: String = note_name(note);
    out.append(name.as_str());
    out.append(" vel:");
    push_decimal(&mut out, velocity as u64);
    out
}

fn released(channel: u8, note: u8) -> (r: String)
    requires
        channel < 255,
    ensures
        r@ == released_line(channel, note),
{
    let mut out: String = owned("◀ NoteOff ch:");
    push_channel(&mut out, channel);
    out.append(" ");
    let name: String = note_name(note);
    out.append(name.as_str());
    out
}

fn holds(notes: &Vec<u8>, note: u8) -> (r: bool)
    ensures
        r == notes@.contains(note),
{
    let mut i: usize = 0;
    while i < notes.len()
        invariant
            i <= notes.len(),
            forall|k: int| 0 <= k < i ==> notes@[k] != note,
        decreases notes.len() - i,
    {
        if notes[i] == note {
            return true;
        }
        i = i + 1;
    }
    false
}

/// The color of a key: held keys and the key under the pointer stand out.
pub open spec fn key_color_of(is_white: bool, is_held: bool, is_hovered: bool) -> Color {
    if is_white {
        if is_held {
            Color::Rgb(100, 180, 255)
        } else if is_hovered {
            Color::Rgb(220, 230, 255)
        } else {
            Color::White
        }
    } else {
        if is_held {
            Color::Rgb(60, 120, 220)
        } else if is_hovered {
            Color::Rgb(80, 80, 120)
        } else {
            Color::Rgb(30, 30, 30)
        }
    }
}

impl PianoWidget {
    /// No note is held twice, the channel can be counted from one, and every
    /// key has a note.
    pub open spec fn wf(&self) -> bool {
        &&& self.held_notes@.no_duplicates()
        &&& self.channel < 255
        &&& self.white_key_count <= MAX_WHITE_KEYS
    }

    /// Puts incoming messages into the log.
    pub fn log_events(&mut self, events: &Vec<MidiEvent>)
        requires
            forall|i: int| 0 <= i < events@.len() ==> channel_fits((#[trigger] events@[i]).kind@),
        ensures
            texts(final(self).event_log@) == logged_all(
                texts(old(self).event_log@),
                described_all(events@),
                MAX_LINES as nat,
            ),
            *final(self) == (PianoWidget { event_log: final(self).event_log, ..*old(self) }),
    {
        let ghost all = described_all(events@);
        let ghost start = texts(self.event_log@);
        let mut i: usize = 0;
        assert(all.take(0) =~= Seq::empty());
        while i < events.len()
            invariant
                i <= events.len(),
                all == described_all(events@),
                all.len() == events@.len(),
                forall|k: int|
                    0 <= k < events@.len() ==> channel_fits((#[trigger] events@[k]).kind@),
                texts(self.event_log@) == logged_all(start, all.take(i as int), MAX_LINES as nat),
                *self == (PianoWidget { event_log: self.event_log, ..*old(self) }),
            decreases events.len() - i,
        {
            let line: String = describe(&events[i].kind);
            proof {
                assert(all.take(i + 1).drop_last() =~= all.take(i as int));
                assert(all.take(i + 1).last() == line@);
            }
            push_line(&mut self.event_log, line);
            i = i + 1;
        }
        assert(all.take(all.len() as int) =~= all);
    }

    /// The octave that the keyboard starts in, as it is shown.
    pub fn octave_label(&self) -> (r: String)
        ensures
            r@ == "C"@ + signed_decimal(octave_of(self.start_note)),
    {
        let mut out: String = owned("C");
        push_signed(&mut out, (self.start_note / 12) as i32 - 1);
        out
    }

    /// Moves the keyboard an octave down, as far as it goes.
    pub fn octave_down(&mut self)
        ensures
            *final(self) == (PianoWidget {
                start_note: if octave_of(old(self).start_note) > -1 {
                    (c_below(old(self).start_note) - 12) as u8
                } else {
                    old(self).start_note
                },
                ..*old(self)
            }),
    {
        let octave: u8 = self.start_note / 12;
        if octave > 0 {
            self.start_note = (octave - 1) * 12;
        }
    }

    /// Moves the keyboard an octave up, to octave 8 at most.
    pub fn octave_up(&mut self)
        ensures
            *final(self) == (PianoWidget {
                start_note: if octave_of(old(self).start_note) < 8 {
                    (c_below(old(self).start_note) + 12) as u8
                } else {
                    old(self).start_note
                },
                ..*old(self)
            }),
    {
        let octave: u8 = self.start_note / 12;
        if octave < 9 {
            self.start_note = (octave + 1) * 12;
        }
    }

    /// Sets the velocity, within 1 and 127.
    pub fn set_velocity(&mut self, velocity: u8)
        ensures
            *final(self) == (PianoWidget {
                velocity: if velocity < 1 {
                    1
                } else if velocity > 127 {
                    127
                } else {
                    velocity
                },
                ..*old(self)
            }),
    {
        self.velocity = if velocity < 1 {
            1
        } else if velocity > 127 {
            127
        } else {
            velocity
        };
    }

    /// Sets the channel, counted from one, within 1 and 16.
    pub fn set_shown_channel(&mut self, shown: u8)
        ensures
            *final(self) == (PianoWidget {
                channel: if shown < 1 {
                    0
                } else if shown > 16 {
                    15
                } else {
                    (shown - 1) as u8
                },
                ..*old(self)
            }),
            final(self).channel <= 15,
    {
        self.channel = if shown < 1 {
            0
        } else if shown > 16 {
            15
        } else {
            shown - 1
        };
    }

    /// The piano after its controls were used: the octave goes down, then up,
    /// and the velocity and channel are brought into their ranges.
    pub open spec fn adjusted(&self, controls: PianoControls) -> PianoWidget {
        let lower = if controls.octave_down && octave_of(self.start_note) > -1 {
            (c_below(self.start_note) - 12) as u8
        } else {
            self.start_note
        };
        PianoWidget {
            start_note: if controls.octave_up && octave_of(lower) < 8 {
                (c_below(lower) + 12) as u8
            } else {
                lower
            },
            velocity: if controls.velocity < 1 {
                1
            } else if controls.velocity > 127 {
                127
            } else {
                controls.velocity
            },
            channel: if controls.shown_channel < 1 {
                0
            } else if controls.shown_channel > 16 {
                15
            } else {
                (controls.shown_channel - 1) as u8
            },
            ..*self
        }
    }

    /// Takes over the controls above the keyboard.
    pub fn adjust(&mut self, controls: &PianoControls)
        ensures
            *final(self) == old(self).adjusted(*controls),
    {
        if controls.octave_down {
            self.octave_down();
        }
        if controls.octave_up {
            self.octave_up();
        }
        self.set_velocity(controls.velocity);
        self.set_shown_channel(controls.shown_channel);
    }

    /// Takes over a frame of the piano: the messages that came in, the
    /// controls, and the pointer. Returns the messages to send, in order.
    pub fn show(
        &mut self,
        events: &Vec<MidiEvent>,
        controls: &PianoControls,
        pointer: &PointerFrame,
    ) -> (r: Vec<PianoMessage>)
        requires
            old(self).wf(),
            forall|i: int| 0 <= i < events@.len() ==> channel_fits((#[trigger] events@[i]).kind@),
        ensures
            final(self).wf(),
            ({
                let set = old(self).adjusted(*controls);
                let frame = set.frame(final(self).hovered_note, *pointer);
                &&& match pointer.position {
                    Some(position) => is_note_at(
                        set.start_note,
                        set.white_key_count,
                        position,
                        final(self).hovered_note,
                    ),
                    None => final(self).hovered_note is None,
                }
                &&& r@ == frame.messages
                &&& final(self).held_notes@ == frame.held
                &&& texts(final(self).event_log@) == logged_all(
                    logged_all(
                        texts(old(self).event_log@),
                        described_all(events@),
                        MAX_LINES as nat,
                    ),
                    frame.lines,
                    MAX_LINES as nat,
                )
                &&& *final(self) == (PianoWidget {
                    held_notes: final(self).held_notes,
                    hovered_note: final(self).hovered_note,
                    event_log: final(self).event_log,
                    ..set
                })
            }),
    {
        self.log_events(events);
        self.adjust(controls);
        self.play(pointer)
    }

    /// What this frame of the pointer comes to, over the given key.
    pub open spec fn frame(&self, hovered: Option<u8>, pointer: PointerFrame) -> PianoFrame {
        piano_frame(
            self.held_notes@,
            hovered,
            pointer.is_down,
            pointer.drag_stopped,
            self.channel,
            self.velocity,
        )
    }

    /// Takes over a frame of the pointer. Returns the messages to send, in
    /// order.
    pub fn play(&mut self, pointer: &PointerFrame) -> (r: Vec<PianoMessage>)
        requires
            old(self).wf(),
        ensures
            final(self).wf(),
            match pointer.position {
                Some(position) => is_note_at(
                    old(self).start_note,
                    old(self).white_key_count,
                    position,
                    final(self).hovered_note,
                ),
                None => final(self).hovered_note is None,
            },
            ({
                let frame = old(self).frame(final(self).hovered_note, *pointer);
                &&& r@ == frame.messages
                &&& final(self).held_notes@ == frame.held
                &&& texts(final(self).event_log@) == logged_all(
                    texts(old(self).event_log@),
                    frame.lines,
                    MAX_LINES as nat,
                )
            }),
            *final(self) == (PianoWidget {
                held_notes: final(self).held_notes,
                hovered_note: final(self).hovered_note,
                event_log: final(self).event_log,
                ..*old(self)
            }),
    {
        let channel: u8 = self.channel;
        let velocity: u8 = self.velocity;
        let mut messages: Vec<PianoMessage> = Vec::new();
        let mut ended: Vec<u8> = Vec::new();
        let ghost held = self.held_notes@;
        let lets_go: bool = pointer.drag_stopped || !pointer.is_down;
        if lets_go {
            ended.append(&mut self.held_notes);
            assert(ended@ =~= held);
            assert(self.held_notes@ =~= Seq::empty());
        }
        let ghost kept = self.held_notes@;
        end_notes(&mut messages, channel, &ended);
        assert(messages@ =~= note_offs(channel, ended@));
        let hovered: Option<u8> = match &pointer.position {
            Some(position) => note_at(self.start_note, self.white_key_count, position),
            None => None,
        };
        self.hovered_note = hovered;
        let mut lines: Vec<String> = Vec::new();
        if pointer.is_down {
            match hovered {
                Some(note) => {
                    let starts: bool = !holds(&self.held_notes, note);
                    if starts {
                        messages.push(PianoMessage::NoteOn { channel, note, velocity });
                        lines.push(pressed(channel, note, velocity));
                    }
                    let rest: Vec<u8> = all_but(&self.held_notes, note);
                    let ghost before = messages@;
                    end_notes(&mut messages, channel, &rest);
                    let mut now: Vec<u8> = Vec::new();
                    now.push(note);
                    self.held_notes = now;
                    assert(self.held_notes@ =~= seq![note]);
                    assert(messages@ =~= old(self).frame(hovered, *pointer).messages);
                },
                None => {},
            }
        }
        let ghost first = texts(lines@);
        let mut i: usize = 0;
        assert(first + released_lines(channel, ended@.take(0)) =~= first);
        while i < ended.len()
            invariant
                i <= ended.len(),
                channel < 255,
                texts(lines@) == first + released_lines(channel, ended@.take(i as int)),
            decreases ended.len() - i,
        {
            let ghost earlier = texts(lines@);
            let line: String = released(channel, ended[i]);
            let ghost text = line@;
            lines.push(line);
            proof {
                assert(texts(lines@) =~= earlier.push(text));
                assert(released_lines(channel, ended@.take(i + 1)) =~= released_lines(
                    channel,
                    ended@.take(i as int),
                ).push(text));
                assert(texts(lines@) =~= first + released_lines(channel, ended@.take(i + 1)));
            }
            i = i + 1;
        }
        assert(ended@.take(ended@.len() as int) =~= ended@);
        assert(texts(lines@) =~= old(self).frame(hovered, *pointer).lines);
        self.log_lines(lines);
        messages
    }

    fn log_lines(&mut self, lines: Vec<String>)
        ensures
            texts(final(self).event_log@) == logged_all(
                texts(old(self).event_log@),
                texts(lines@),
                MAX_LINES as nat,
            ),
            *final(self) == (PianoWidget { event_log: final(self).event_log, ..*old(self) }),
    {
        let ghost all = texts(lines@);
        let ghost start = texts(self.event_log@);
        let mut i: usize = 0;
        assert(all.take(0) =~= Seq::empty());
        while i < lines.len()
            invariant
                i <= lines.len(),
                all == texts(lines@),
                all.len() == lines@.len(),
                texts(self.event_log@) == logged_all(start, all.take(i as int), MAX_LINES as nat),
                *self == (PianoWidget { event_log: self.event_log, ..*old(self) }),
            decreases lines.len() - i,
        {
            proof {
                assert(all.take(i + 1).drop_last() =~= all.take(i as int));
                assert(all.take(i + 1).last() == lines@[i as int]@);
            }
            push_line(&mut self.event_log, lines[i].clone());
            i = i + 1;
        }
        assert(all.take(all.len() as int) =~= all);
    }

    /// The color of a key.
    pub fn key_color(&self, is_white: bool, note: u8) -> (r: Color)
        ensures
            r == key_color_of(
                is_white,
                self.held_notes@.contains(note),
                self.hovered_note == Some(note),
            ),
    {
        let is_held: bool = holds(&self.held_notes, note);
        let is_hovered: bool = match self.hovered_note {
            Some(n) => n == note,
            None => false,
        };
        if is_white {
            if is_held {
                Color::Rgb(100, 180, 255)
            } else if is_hovered {
                Color::Rgb(220, 230, 255)
            } else {
                Color::White
            }
        } else {
            if is_held {
                Color::Rgb(60, 120, 220)
            } else if is_hovered {
                Color::Rgb(80, 80, 120)
            } else {
                Color::Rgb(30, 30, 30)
            }
        }
    }

    /// The label of a white key: Cs have one.
    pub fn key_label(note: u8) -> (r: Option<String>)
        ensures
            match r {
                Some(label) => note % 12 == 0 && label@ == note_text(note),
                None => note % 12 != 0,
            },
    {
        if note % 12 == 0 {
            Some(note_name(note))
        } else {
            None
        }
    }
}

fn end_notes(messages: &mut Vec<PianoMessage>, channel: u8, notes: &Vec<u8>)
    ensures
        final(messages)@ == old(messages)@ + note_offs(channel, notes@),
{
    let mut i: usize = 0;
    assert(messages@ + note_offs(channel, notes@.take(0)) =~= messages@);
    while i < notes.len()
        invariant
            i <= notes.len(),
            messages@ == old(messages)@ + note_offs(channel, notes@.take(i as int)),
        decreases notes.len() - i,
    {
        messages.push(PianoMessage::NoteOff { channel, note: notes[i] });
        assert(messages@ =~= old(messages)@ + note_offs(channel, notes@.take(i + 1)));
        i = i + 1;
    }
    assert(notes@.take(notes@.len() as int) =~= notes@);
}

fn all_but(notes: &Vec<u8>, note: u8) -> (r: Vec<u8>)
    ensures
        r@ == others(notes@, note),
{
    let mut out: Vec<u8> = Vec::new();
    let mut i: usize = 0;
    assert(notes@.take(0) =~= Seq::empty());
    while i < notes.len()
        invariant
            i <= notes.len(),
            out@ == others(notes@.take(i as int), note),
        decreases notes.len() - i,
    {
        assert(notes@.take(i + 1).drop_last() =~= notes@.take(i as int));
        if notes[i] != note {
            out.push(notes[i]);
        }
        i = i + 1;
    }
    assert(notes@.take(notes@.len() as int) =~= notes@);
    out
}

// ── Laws of the piano ───────────────────────────────────────────────────────

/// Several notes as a set.
pub open spec fn set_of(notes: Seq<u8>) -> Set<u8> {
    Set::new(|n: u8| notes.contains(n))
}

/// The notes that sound after a message, where those in `sounding` sounded
/// before. Notes are told apart by their number, whatever channel they are on.
pub open spec fn after_message(sounding: Set<u8>, message: PianoMessage) -> Set<u8> {
    match message {
        PianoMessage::NoteOn { note, .. } => sounding.insert(note),
        PianoMessage::NoteOff { note, .. } => sounding.remove(note),
    }
}

/// The notes that sound after several messages.
pub open spec fn after_messages(sounding: Set<u8>, messages: Seq<PianoMessage>) -> Set<u8>
    decreases messages.len(),
{
    if messages.len() == 0 {
        sounding
    } else {
        after_message(after_messages(sounding, messages.drop_last()), messages.last())
    }
}

proof fn lemma_messages_add(sounding: Set<u8>, a: Seq<PianoMessage>, b: Seq<PianoMessage>)
    ensures
        after_messages(sounding, a + b) == after_messages(after_messages(sounding, a), b),
    decreases b.len(),
{
    if b.len() == 0 {
        assert(a + b =~= a);
    } else {
        assert((a + b).drop_last() =~= a + b.drop_last());
        lemma_messages_add(sounding, a, b.drop_last());
    }
}

proof fn lemma_notes_end(sounding: Set<u8>, channel: u8, notes: Seq<u8>)
    ensures
        forall|n: u8| #[trigger]
            after_messages(sounding, note_offs(channel, notes)).contains(n) <==> sounding.contains(
                n,
            ) && !notes.contains(n),
    decreases notes.len(),
{
    let offs = note_offs(channel, notes);
    if notes.len() > 0 {
        let init = notes.drop_last();
        lemma_notes_end(sounding, channel, init);
        assert(offs.drop_last() =~= note_offs(channel, init));
        assert(offs.last() == PianoMessage::NoteOff { channel, note: notes.last() });
        assert forall|n: u8| notes.contains(n) <==> init.contains(n) || n == notes.last() by {
            if notes.contains(n) {
                let i = choose|i: int| 0 <= i < notes.len() && notes[i] == n;
                if i < init.len() {
                    assert(init[i] == n);
                }
            }
            if init.contains(n) {
                let i = choose|i: int| 0 <= i < init.len() && init[i] == n;
                assert(notes[i] == n);
            }
            assert(notes[notes.len() - 1] == notes.last());
        }
        let now = after_messages(sounding, offs);
        let earlier = after_messages(sounding, note_offs(channel, init));
        assert(now == earlier.remove(notes.last()));
        assert forall|n: u8| #[trigger] now.contains(n) <==> sounding.contains(n)
            && !notes.contains(n) by {
            assert(now.contains(n) <==> earlier.contains(n) && n != notes.last());
        }
    }
}

proof fn lemma_others(notes: Seq<u8>, note: u8)
    ensures
        forall|n: u8| #[trigger]
            others(notes, note).contains(n) <==> notes.contains(n) && n != note,
    decreases notes.len(),
{
    if notes.len() > 0 {
        let init = notes.drop_last();
        lemma_others(init, note);
        assert forall|n: u8| #[trigger]
            others(notes, note).contains(n) <==> notes.contains(n) && n != note by {
            assert(others(init, note).contains(n) <==> init.contains(n) && n != note);
            if notes.contains(n) {
                let i = choose|i: int| 0 <= i < notes.len() && notes[i] == n;
                if i < init.len() {
                    assert(init[i] == n);
                }
            }
            if init.contains(n) {
                let i = choose|i: int| 0 <= i < init.len() && init[i] == n;
                assert(notes[i] == n);
            }
            assert(notes[notes.len() - 1] == notes.last());
            assert(notes.contains(n) <==> init.contains(n) || n == notes.last());
            if notes.last() != note {
                let rest = others(init, note);
                let all = others(notes, note);
                assert(all == rest.push(notes.last()));
                assert(all[rest.len() as int] == notes.last());
                if rest.contains(n) {
                    let i = choose|i: int| 0 <= i < rest.len() && rest[i] == n;
                    assert(all[i] == n);
                }
                if all.contains(n) {
                    let i = choose|i: int| 0 <= i < all.len() && all[i] == n;
                    if i < rest.len() {
                        assert(rest[i] == n);
                    }
                }
            }
        }
    }
}

/// The notes that the piano holds are the notes that its messages leave
/// sounding: every note that it starts is ended once it is no longer held.
pub proof fn law_held_notes_sound(
    held: Seq<u8>,
    hovered: Option<u8>,
    is_down: bool,
    drag_stopped: bool,
    channel: u8,
    velocity: u8,
)
    ensures
        ({
            let frame = piano_frame(held, hovered, is_down, drag_stopped, channel, velocity);
            after_messages(set_of(held), frame.messages) == set_of(frame.held)
        }),
{
    let frame = piano_frame(held, hovered, is_down, drag_stopped, channel, velocity);
    let lets_go = drag_stopped || !is_down;
    let kept = if lets_go {
        Seq::empty()
    } else {
        held
    };
    let ended = if lets_go {
        held
    } else {
        Seq::empty()
    };
    let first = note_offs(channel, ended);
    lemma_notes_end(set_of(held), channel, ended);
    assert(after_messages(set_of(held), first) =~= set_of(kept));
    if is_down && hovered is Some {
        let note = hovered->0;
        let on = if !kept.contains(note) {
            seq![PianoMessage::NoteOn { channel, note, velocity }]
        } else {
            Seq::empty()
        };
        let last = note_offs(channel, others(kept, note));
        lemma_messages_add(set_of(held), first + on, last);
        lemma_messages_add(set_of(held), first, on);
        reveal_with_fuel(after_messages, 2);
        assert(on.len() > 0 ==> on.drop_last() =~= Seq::empty());
        assert(after_messages(set_of(kept), on) =~= set_of(kept).insert(note));
        lemma_others(kept, note);
        lemma_notes_end(set_of(kept).insert(note), channel, others(kept, note));
        assert(frame.held[0] == note);
        assert(set_of(frame.held) =~= Set::empty().insert(note));
        assert(after_messages(set_of(held), frame.messages) =~= set_of(frame.held));
    } else {
        assert(after_messages(set_of(held), frame.messages) =~= set_of(frame.held));
    }
}

/// If at most one key was held, at most one key is held.
pub proof fn law_one_key_at_a_time(
    held: Seq<u8>,
    hovered: Option<u8>,
    is_down: bool,
    drag_stopped: bool,
    channel: u8,
    velocity: u8,
)
    requires
        held.len() <= 1,
    ensures
        piano_frame(held, hovered, is_down, drag_stopped, channel, velocity).held.len() <= 1,
{
}

/// Once the pointer's button is up, no note sounds.
pub proof fn law_button_up_is_silence(
    held: Seq<u8>,
    hovered: Option<u8>,
    drag_stopped: bool,
    channel: u8,
    velocity: u8,
)
    ensures
        piano_frame(held, hovered, false, drag_stopped, channel, velocity).held.len() == 0,
{
}

/// The white keys go up from the C of the octave that the keyboard starts in:
/// C, D, E, F, G, A, B, and again from the next C.
pub proof fn law_white_keys_play_c_major(start: u8, octave: usize, white_idx: usize)
    requires
        octave < 21,
        7 * octave <= white_idx < 7 * octave + 7,
        start / 12 * 12 + 12 * octave + 11 <= 255,
    ensures
        white_note(start, white_idx) == start / 12 * 12 + 12 * octave + seq![
            0int,
            2,
            4,
            5,
            7,
            9,
            11,
        ][white_idx - 7 * octave],
{
    lemma_keys_fit(white_idx);
    let k = white_idx - 7 * octave;
    assert(white_idx as int / 7 == octave);
    assert(white_idx as int % 7 == k);
    assert(k == 0 || k == 1 || k == 2 || k == 3 || k == 4 || k == 5 || k == 6);
    assert(start - start % 12 == start / 12 * 12);
}

/// To the right of each C, D, F, G and A stands a black key, a semitone above
/// it; to the right of E and B stands none. No note goes beyond 255.
pub proof fn law_black_keys_are_a_semitone_up(start: u8, white_idx: usize)
    requires
        white_idx < MAX_WHITE_KEYS,
    ensures
        black_note(start, white_idx) is None <==> white_idx % 7 == 2 || white_idx % 7 == 6,
        black_note(start, white_idx) matches Some(note) ==> note == (if white_note(
            start,
            white_idx,
        ) < 255 {
            white_note(start, white_idx) + 1
        } else {
            255
        }),
{
    lemma_keys_fit(white_idx);
}

/// Whether a position is on the black key that is centred on the right edge of
/// a white key: 16 pixels wide, 50 high, with its edges.
pub open spec fn is_on_sharp(position: PointerPosition, white_idx: int) -> bool {
    &&& 24 * (white_idx + 1) - 8 <= position.x_floor
    &&& position.x_ceil <= 24 * (white_idx + 1) + 8
    &&& 0 <= position.y_floor
    &&& position.y_ceil <= 50
}

/// A black key sounds where it is drawn, centred between its white key and the
/// next: there it gives the note a semitone above its white key.
pub proof fn law_black_keys_sound_where_they_are(
    start: u8,
    count: usize,
    position: PointerPosition,
    note: Option<u8>,
    white_idx: usize,
)
    requires
        count <= MAX_WHITE_KEYS,
        white_idx < count,
        white_idx % 7 != 2 && white_idx % 7 != 6,
        position.x_floor <= position.x_ceil,
        is_on_sharp(position, white_idx as int),
        is_note_at(start, count, position, note),
    ensures
        note == Some(
            (if white_note(start, white_idx) < 255 {
                white_note(start, white_idx) + 1
            } else {
                255
            }) as u8,
        ),
{
    assert(on_black_key(position, white_idx as int));
    assert(hits_black_key(position, count));
    let wi = choose|wi: usize|
        {
            &&& wi < count
            &&& has_black_key(wi)
            &&& #[trigger] on_black_key(position, wi as int)
            &&& note == black_note(start, wi)
        };
    law_one_black_key(position, wi as int, white_idx as int);
    law_black_keys_are_a_semitone_up(start, white_idx);
}

/// Anywhere else the white key counts that is 24 pixels wide and holds the
/// position; left of the keyboard the first one, and right of it none.
pub proof fn law_white_keys_fill_the_rest(
    start: u8,
    count: usize,
    position: PointerPosition,
    note: Option<u8>,
)
    requires
        count <= MAX_WHITE_KEYS,
        is_note_at(start, count, position, note),
        forall|wi: usize|
            wi < count && wi % 7 != 2 && wi % 7 != 6 ==> !#[trigger] is_on_sharp(
                position,
                wi as int,
            ),
    ensures
        position.x_floor >= 24 * count ==> note is None,
        position.x_floor < 0 && count > 0 ==> note == Some(white_note(start, 0)),
        forall|wi: usize|
            wi < count && 24 * wi <= position.x_floor < 24 * wi + 24 ==> note == Some(
                #[trigger] white_note(start, wi),
            ),
        count == 0 ==> note is None,
{
    if hits_black_key(position, count) {
        let wi = choose|wi: usize|
            wi < count && has_black_key(wi) && #[trigger] on_black_key(position, wi as int);
        assert(is_on_sharp(position, wi as int));
    }
    assert forall|wi: usize| wi < count && 24 * wi <= position.x_floor < 24 * wi + 24 implies note
        == Some(#[trigger] white_note(start, wi)) by {
        assert(position.x_floor as int / 24 == wi);
    }
}

proof fn lemma_key_place(white_idx: usize) -> (r: (int, int))
    requires
        white_idx < MAX_WHITE_KEYS,
    ensures
        white_idx == 7 * r.0 + r.1,
        0 <= r.1 < 7,
        white_semitones(white_idx) == 12 * r.0 + (if r.1 == 0 {
            0int
        } else if r.1 == 1 {
            2
        } else if r.1 == 2 {
            4
        } else if r.1 == 3 {
            5
        } else if r.1 == 4 {
            7
        } else if r.1 == 5 {
            9
        } else {
            11
        }),
{
    lemma_keys_fit(white_idx);
    let octave = white_idx as int / 7;
    let k = white_idx as int % 7;
    assert(octave % 256 == octave);
    assert(k == 0 || k == 1 || k == 2 || k == 3 || k == 4 || k == 5 || k == 6);
    (octave, k)
}

/// The note of a black key sounds nowhere but on that key.
pub proof fn law_no_other_place_sounds_a_black_key(
    start: u8,
    count: usize,
    position: PointerPosition,
    white_idx: usize,
)
    requires
        count <= MAX_WHITE_KEYS,
        white_idx < count,
        white_idx % 7 != 2 && white_idx % 7 != 6,
        white_note(start, white_idx) < 254,
        is_note_at(start, count, position, Some((white_note(start, white_idx) + 1) as u8)),
    ensures
        is_on_sharp(position, white_idx as int),
{
    let note = (white_note(start, white_idx) + 1) as u8;
    let (o, k) = lemma_key_place(white_idx);
    if hits_black_key(position, count) {
        let wi = choose|wi: usize|
            {
                &&& wi < count
                &&& has_black_key(wi)
                &&& #[trigger] on_black_key(position, wi as int)
                &&& Some(note) == black_note(start, wi)
            };
        let (p, j) = lemma_key_place(wi);
        assert(white_semitones(wi) == white_semitones(white_idx));
        assert(p == o && j == k);
    } else {
        let wi = white_key_at(position) as usize;
        let (p, j) = lemma_key_place(wi);
        assert(white_semitones(wi) == white_semitones(white_idx) + 1);
        assert(p == o);
    }
}

/// What the pointer does to the notes, message by message: pressing a key
/// starts its note, with the piano's channel and velocity, and then ends the
/// ones that were held; keeping it pressed does nothing; leaving the keys with
/// the button down does nothing; letting go ends every held note.
pub proof fn law_pointer_plays_notes(held: Seq<u8>, note: u8, channel: u8, velocity: u8)
    ensures
        ({
            let pressed = piano_frame(held, Some(note), true, false, channel, velocity);
            &&& pressed.held == seq![note]
            &&& !held.contains(note) ==> {
                &&& pressed.messages.len() == held.len() + 1
                &&& pressed.messages[0] == PianoMessage::NoteOn { channel, note, velocity }
                &&& forall|i: int|
                    0 <= i < held.len() ==> #[trigger] pressed.messages[i + 1]
                        == PianoMessage::NoteOff { channel, note: held[i] }
                &&& pressed.lines == seq![
                    "► NoteOn  ch:"@ + decimal((channel + 1) as nat) + " "@ + note_text(note)
                        + " vel:"@ + decimal(velocity as nat),
                ]
            }
            &&& held.contains(note) ==> {
                &&& pressed.lines.len() == 0
                &&& forall|i: int|
                    0 <= i < pressed.messages.len() ==> (
                    #[trigger] pressed.messages[i] matches PianoMessage::NoteOff {
                        channel: c,
                        note: n,
                    } && c == channel && n != note && held.contains(n))
            }
        }),
        ({
            let kept = piano_frame(seq![note], Some(note), true, false, channel, velocity);
            kept.held == seq![note] && kept.messages.len() == 0 && kept.lines.len() == 0
        }),
        ({
            let away = piano_frame(held, None, true, false, channel, velocity);
            away.held == held && away.messages.len() == 0 && away.lines.len() == 0
        }),
{
    lemma_no_others(held, note);
    reveal_with_fuel(others, 2);
    assert(seq![note].contains(note)) by {
        assert(seq![note][0] == note);
    }
    assert(seq![note].drop_last() =~= Seq::<u8>::empty());
    let pressed = piano_frame(held, Some(note), true, false, channel, velocity);
    if held.contains(note) {
        lemma_others(held, note);
        let rest = others(held, note);
        assert(note_offs(channel, Seq::<u8>::empty()) =~= Seq::<PianoMessage>::empty());
        assert(pressed.messages =~= note_offs(channel, rest));
        assert forall|i: int| 0 <= i < pressed.messages.len() implies (
        #[trigger] pressed.messages[i] matches PianoMessage::NoteOff { channel: c, note: n } && c
            == channel && n != note && held.contains(n)) by {
            assert(rest.contains(rest[i]));
        }
    }
    if !held.contains(note) {
        assert(note_offs(channel, Seq::<u8>::empty()) =~= Seq::<PianoMessage>::empty());
        assert(pressed.messages =~= seq![PianoMessage::NoteOn { channel, note, velocity }]
            + note_offs(channel, held));
        assert(pressed.lines =~= seq![
            "► NoteOn  ch:"@ + decimal((channel + 1) as nat) + " "@ + note_text(note) + " vel:"@
                + decimal(velocity as nat),
        ]);
    }
}

/// Letting go, by the end of a drag or with the button up, ends every held
/// note, in order and on the piano's channel, and logs each.
pub proof fn law_letting_go_ends_every_note(
    held: Seq<u8>,
    hovered: Option<u8>,
    drag_stopped: bool,
    channel: u8,
    velocity: u8,
)
    ensures
        ({
            let gone = piano_frame(held, hovered, false, drag_stopped, channel, velocity);
            &&& gone.held.len() == 0
            &&& gone.messages.len() == held.len()
            &&& gone.lines.len() == held.len()
            &&& forall|i: int|
                0 <= i < held.len() ==> #[trigger] gone.messages[i] == PianoMessage::NoteOff {
                    channel,
                    note: held[i],
                }
            &&& forall|i: int|
                0 <= i < held.len() ==> #[trigger] gone.lines[i] == "◀ NoteOff ch:"@ + decimal(
                    (channel + 1) as nat,
                ) + " "@ + note_text(held[i])
        }),
        ({
            let ended = piano_frame(held, None, true, true, channel, velocity);
            &&& ended.held.len() == 0
            &&& ended.messages == piano_frame(
                held,
                None,
                false,
                false,
                channel,
                velocity,
            ).messages
        }),
        hovered matches Some(note) ==> {
            let again = piano_frame(held, hovered, true, true, channel, velocity);
            &&& again.held == seq![note]
            &&& again.messages == piano_frame(
                held,
                None,
                false,
                false,
                channel,
                velocity,
            ).messages.push(PianoMessage::NoteOn { channel, note, velocity })
        },
{
    match hovered {
        Some(note) => {
            let again = piano_frame(held, hovered, true, true, channel, velocity);
            let none = Seq::<u8>::empty();
            assert(note_offs(channel, others(none, note)) =~= Seq::<PianoMessage>::empty());
            assert(again.messages =~= note_offs(channel, held).push(
                PianoMessage::NoteOn { channel, note, velocity },
            ));
        },
        None => {},
    }
}

proof fn lemma_no_others(notes: Seq<u8>, note: u8)
    ensures
        !notes.contains(note) ==> others(notes, note) == notes,
    decreases notes.len(),
{
    if !notes.contains(note) {
        if notes.len() > 0 {
            let init = notes.drop_last();
            assert(notes[notes.len() - 1] == notes.last());
            if init.contains(note) {
                let i = choose|i: int| 0 <= i < init.len() && init[i] == note;
                assert(notes[i] == note);
            }
            lemma_no_others(init, note);
            assert(init.push(notes.last()) =~= notes);
        } else {
            assert(notes =~= Seq::<u8>::empty());
        }
    }
}

/// A note's name is that of its place above C, and the number of its octave;
/// the C of octave 4 is note 60.
pub proof fn law_notes_are_named_by_pitch_and_octave(note: u8, octave: int)
    requires
        12 * (octave + 1) <= note < 12 * (octave + 2),
    ensures
        note_text(note) == seq![
            "C"@,
            "C#"@,
            "D"@,
            "D#"@,
            "E"@,
            "F"@,
            "F#"@,
            "G"@,
            "G#"@,
            "A"@,
            "A#"@,
            "B"@,
        ][note - 12 * (octave + 1)] + signed_decimal(octave),
{
    assert(note / 12 == octave + 1);
}

/// An incoming message is shown with its channel counted from one and every
/// number that it carries.
pub proof fn law_messages_in_words(channel: u8, a: u8, b: u8, value: i16, bytes: Seq<u8>)
    ensures
        described(MidiMessage::NoteOn { channel, note: a, velocity: b }) == "NoteOn  ch:"@
            + decimal((channel + 1) as nat) + " note:"@ + decimal(a as nat) + " ("@ + note_text(a)
            + ") vel:"@ + decimal(b as nat),
        described(MidiMessage::NoteOff { channel, note: a }) == "NoteOff ch:"@ + decimal(
            (channel + 1) as nat,
        ) + " note:"@ + decimal(a as nat) + " ("@ + note_text(a) + ")"@,
        described(MidiMessage::ControlChange { channel, cc: a, value: b }) == "CC      ch:"@
            + decimal((channel + 1) as nat) + " cc:"@ + decimal(a as nat) + " val:"@ + decimal(
            b as nat,
        ),
        described(MidiMessage::PitchBend { channel, value }) == "PBend   ch:"@ + decimal(
            (channel + 1) as nat,
        ) + " val:"@ + signed_decimal(value as int),
        described(MidiMessage::Other(bytes)) == "Other   "@ + byte_list(bytes),
{
}

/// The controls set what they show: the velocity within 1 and 127, the channel
/// within 1 and 16, and the octave one down or one up, within -1 and 8, to
/// start at its C. Nothing else changes.
pub proof fn law_controls_set_what_they_show(piano: PianoWidget, controls: PianoControls)
    ensures
        ({
            let now = piano.adjusted(controls);
            &&& 1 <= controls.velocity <= 127 ==> now.velocity == controls.velocity
            &&& controls.velocity > 127 ==> now.velocity == 127
            &&& controls.velocity == 0 ==> now.velocity == 1
            &&& 1 <= controls.shown_channel <= 16 ==> now.channel + 1 == controls.shown_channel
            &&& controls.shown_channel > 16 ==> now.channel == 15
            &&& controls.shown_channel == 0 ==> now.channel == 0
            &&& !controls.octave_down && !controls.octave_up ==> now.start_note == piano.start_note
            &&& controls.octave_up && !controls.octave_down && piano.start_note < 108
                ==> now.start_note % 12 == 0 && now.start_note / 12 == piano.start_note / 12 + 1
            &&& controls.octave_down && !controls.octave_up && piano.start_note >= 12
                ==> now.start_note % 12 == 0 && now.start_note / 12 == piano.start_note / 12 - 1
            &&& controls.octave_up && !controls.octave_down && piano.start_note >= 108
                ==> now.start_note == piano.start_note
            &&& controls.octave_down && !controls.octave_up && piano.start_note < 12
                ==> now.start_note == piano.start_note
            &&& now.held_notes == piano.held_notes
            &&& now.hovered_note == piano.hovered_note
            &&& now.white_key_count == piano.white_key_count
            &&& now.event_log == piano.event_log
        }),
{
}

/// A held key stands out most, then the one under the pointer; white and black
/// keys never look alike.
pub proof fn law_keys_stand_out(is_held: bool, is_hovered: bool)
    ensures
        key_color_of(true, true, is_hovered) == Color::Rgb(100, 180, 255),
        key_color_of(true, false, true) == Color::Rgb(220, 230, 255),
        key_color_of(true, false, false) == Color::White,
        key_color_of(false, true, is_hovered) == Color::Rgb(60, 120, 220),
        key_color_of(false, false, true) == Color::Rgb(80, 80, 120),
        key_color_of(false, false, false) == Color::Rgb(30, 30, 30),
        key_color_of(true, is_held, is_hovered) != key_color_of(false, is_held, is_hovered),
{
}

/// The connect button disconnects what is connected, in either direction, and
/// connects anything else; only disconnecting changes the engine by itself.
pub proof fn law_connect_button_toggles(engine: MidiEngine)
    ensures
        button_request(engine.status) == MidiSettingsRequest::Disconnect
            <==> engine.status is Connected || engine.status is InputOnly
            || engine.status is OutputOnly,
        engine.status is Connected || engine.status is InputOnly || engine.status is OutputOnly
            ==> after_press(engine) == (MidiEngine {
            status: MidiStatus::Disconnected,
            input_open: false,
            output_open: false,
            ..engine
        }),
        engine.status is Disconnected || engine.status is Error ==> after_press(engine) == engine,
{
}

/// A frame is played with the piano's own held notes, channel and velocity.
pub proof fn law_frames_use_the_pianos_settings(
    piano: PianoWidget,
    note: u8,
    position: Option<PointerPosition>,
)
    requires
        piano.held_notes@.len() == 0,
    ensures
        ({
            let press = PointerFrame { position, is_down: true, drag_stopped: false };
            let frame = piano.frame(Some(note), press);
            &&& frame.messages == seq![
                PianoMessage::NoteOn { channel: piano.channel, note, velocity: piano.velocity },
            ]
            &&& frame.held == seq![note]
        }),
{
    law_pointer_plays_notes(piano.held_notes@, note, piano.channel, piano.velocity);
    let press = PointerFrame { position, is_down: true, drag_stopped: false };
    assert(piano.frame(Some(note), press).messages =~= seq![
        PianoMessage::NoteOn { channel: piano.channel, note, velocity: piano.velocity },
    ]);
}

/// Letting go of the button ends all that the piano holds, on its channel.
pub proof fn law_piano_lets_go_of_what_it_holds(
    piano: PianoWidget,
    hovered: Option<u8>,
    position: Option<PointerPosition>,
    drag_stopped: bool,
)
    ensures
        ({
            let up = PointerFrame { position, is_down: false, drag_stopped };
            let frame = piano.frame(hovered, up);
            &&& frame.held.len() == 0
            &&& frame.messages.len() == piano.held_notes@.len()
            &&& forall|i: int|
                0 <= i < frame.messages.len() ==> #[trigger] frame.messages[i]
                    == PianoMessage::NoteOff { channel: piano.channel, note: piano.held_notes@[i] }
        }),
{
    law_letting_go_ends_every_note(
        piano.held_notes@,
        hovered,
        drag_stopped,
        piano.channel,
        piano.velocity,
    );
}

/// Every incoming message is described, in order.
pub proof fn law_each_message_is_described(events: Seq<MidiEvent>)
    ensures
        described_all(events).len() == events.len(),
        forall|i: int|
            0 <= i < events.len() ==> #[trigger] described_all(events)[i] == described(
                events[i].kind@,
            ),
{
}

/// A chosen port is shown by its name; without one, or with one that is gone,
/// there is none.
pub proof fn law_chosen_port_is_shown(names: Seq<String>, i: usize)
    ensures
        i < names.len() ==> port_label_of(Some(i), names) == names[i as int]@,
        i >= names.len() ==> port_label_of(Some(i), names) == "None"@,
        port_label_of(None, names) == "None"@,
{
}

} // verus!

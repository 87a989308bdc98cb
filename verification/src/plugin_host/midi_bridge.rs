//! The bridge that carries MIDI from the user interface to the plugin.

use crate::midi_engine::{lemma_status_byte, note_off_message, note_on_message};
use vstd::prelude::*;

verus! {

// ── Messages ────────────────────────────────────────────────────────────────

/// A raw MIDI message of one to three bytes.
#[derive(Debug, Clone, Copy)]
pub struct RawMidiEvent {
    pub(crate) data: [u8; 3],
    pub(crate) len: u8,
}

impl View for RawMidiEvent {
    type V = Seq<u8>;

    /// The bytes of the message.
    closed spec fn view(&self) -> Seq<u8> {
        self.data@.take(self.len as int)
    }
}

impl RawMidiEvent {
    #[verifier::type_invariant]
    pub(crate) closed spec fn length_fits(self) -> bool {
        1 <= self.len <= 3
    }

    /// A message of three bytes.
    pub fn from_array(data: [u8; 3]) -> (r: Self)
        ensures
            r@ == data@,
    {
        let r = RawMidiEvent { data, len: 3 };
        assert(r@ =~= data@);
        r
    }

    /// A message of the given bytes, if there are one to three of them.
    pub fn from_bytes(bytes: &[u8]) -> (r: Option<Self>)
        ensures
            match r {
                Some(event) => 1 <= bytes@.len() <= 3 && event@ == bytes@,
                None => bytes@.len() == 0 || bytes@.len() > 3,
            },
    {
        let n: usize = bytes.len();
        if n > 3 || n == 0 {
            return None;
        }
        let first: u8 = bytes[0];
        let second: u8 = if n > 1 {
            bytes[1]
        } else {
            0
        };
        let third: u8 = if n > 2 {
            bytes[2]
        } else {
            0
        };
        let r = RawMidiEvent { data: [first, second, third], len: n as u8 };
        assert(r@ =~= bytes@);
        Some(r)
    }

    /// The bytes of the message.
    pub fn bytes(&self) -> (r: Vec<u8>)
        ensures
            r@ == self@,
            1 <= r@.len() <= 3,
    {
        proof {
            use_type_invariant(self);
        }
        let mut out: Vec<u8> = Vec::new();
        out.push(self.data[0]);
        if self.len > 1 {
            out.push(self.data[1]);
        }
        if self.len > 2 {
            out.push(self.data[2]);
        }
        assert(out@ =~= self@);
        out
    }
}

/// An event for the plugin, at the start of its block.
#[derive(Debug, Clone, Copy, PartialEq, Eq)]
pub enum BridgeEvent {
    /// A note starts; the velocity is in 127ths.
    NoteOn { port: u16, channel: u8, key: u16, velocity: u8 },
    /// A note ends, with no velocity.
    NoteOff { port: u16, channel: u8, key: u16 },
    /// A MIDI message as it came.
    Midi { port: u16, status: u8, data1: u8, data2: u8 },
}

/// The event that a message becomes on a note port, if it becomes one.
///
/// A port that does not prefer MIDI gets notes as notes; everything else goes
/// out as it came. Messages of fewer than three bytes are dropped.
pub open spec fn translated(message: Seq<u8>, port: u16, prefers_midi: bool) -> Option<
    BridgeEvent,
> {
    if message.len() < 3 {
        None
    } else {
        let kind = message[0] / 16;
        let channel = message[0] % 16;
        if !prefers_midi && kind == 9 && message[2] > 0 {
            Some(
                BridgeEvent::NoteOn {
                    port,
                    channel,
                    key: message[1] as u16,
                    velocity: message[2],
                },
            )
        } else if !prefers_midi && (kind == 8 || kind == 9) {
            Some(BridgeEvent::NoteOff { port, channel, key: message[1] as u16 })
        } else {
            Some(
                BridgeEvent::Midi {
                    port,
                    status: message[0],
                    data1: message[1],
                    data2: message[2],
                },
            )
        }
    }
}

/// The events that several messages become, in order.
pub open spec fn translated_all(
    messages: Seq<RawMidiEvent>,
    port: u16,
    prefers_midi: bool,
) -> Seq<BridgeEvent>
    decreases messages.len(),
{
    if messages.len() == 0 {
        Seq::empty()
    } else {
        let earlier = translated_all(messages.drop_last(), port, prefers_midi);
        match translated(messages.last()@, port, prefers_midi) {
            Some(event) => earlier.push(event),
            None => earlier,
        }
    }
}

/// The event that a message becomes on a note port, if it becomes one.
pub fn translate(raw: &RawMidiEvent, port: u16, prefers_midi: bool) -> (r: Option<BridgeEvent>)
    ensures
        r == translated(raw@, port, prefers_midi),
{
    proof {
        use_type_invariant(raw);
    }
    if raw.len < 3 {
        return None;
    }
    assert(raw@ =~= raw.data@);
    let b: u8 = raw.data[0];
    let status: u8 = b & 0xF0;
    let channel: u8 = b & 0x0F;
    proof {
        lemma_status_byte(b);
    }
    if !prefers_midi {
        if status == 0x90 && raw.data[2] > 0 {
            return Some(
                BridgeEvent::NoteOn {
                    port,
                    channel,
                    key: raw.data[1] as u16,
                    velocity: raw.data[2],
                },
            );
        }
        if status == 0x80 || status == 0x90 {
            return Some(BridgeEvent::NoteOff { port, channel, key: raw.data[1] as u16 });
        }
    }
    Some(BridgeEvent::Midi { port, status: b, data1: raw.data[1], data2: raw.data[2] })
}

/// The message for a note that starts becomes, for a plugin that speaks notes,
/// that note, as far as MIDI's bits hold it; with no velocity left, its end.
pub proof fn law_note_on_becomes_that_note(channel: u8, note: u8, velocity: u8, port: u16)
    ensures
        translated(note_on_message(channel, note, velocity), port, false) == Some(
            if velocity % 128 > 0 {
                BridgeEvent::NoteOn {
                    port,
                    channel: (channel % 16) as u8,
                    key: (note % 128) as u16,
                    velocity: (velocity % 128) as u8,
                }
            } else {
                BridgeEvent::NoteOff {
                    port,
                    channel: (channel % 16) as u8,
                    key: (note % 128) as u16,
                }
            },
        ),
{
}

/// The message for a note that ends becomes, for a plugin that speaks notes,
/// the end of that note.
pub proof fn law_note_off_becomes_its_end(channel: u8, note: u8, port: u16)
    ensures
        translated(note_off_message(channel, note), port, false) == Some(
            BridgeEvent::NoteOff {
                port,
                channel: (channel % 16) as u8,
                key: (note % 128) as u16,
            },
        ),
{
}

/// A plugin that prefers MIDI gets every full message as it came.
pub proof fn law_midi_goes_through(message: Seq<u8>, port: u16)
    requires
        message.len() == 3,
    ensures
        translated(message, port, true) == Some(
            BridgeEvent::Midi { port, status: message[0], data1: message[1], data2: message[2] },
        ),
{
}

// ── The ring between the threads ────────────────────────────────────────────

/// The writing end of an `rtrb` ring.
#[verifier::external_type_specification]
#[verifier::external_body]
#[verifier::reject_recursive_types(T)]
pub struct ExProducer<T>(rtrb::Producer<T>);

/// The reading end of an `rtrb` ring.
#[verifier::external_type_specification]
#[verifier::external_body]
#[verifier::reject_recursive_types(T)]
pub struct ExConsumer<T>(rtrb::Consumer<T>);

/// All messages that this end has put on its ring so far, oldest first.
pub uninterp spec fn put(producer: rtrb::Producer<RawMidiEvent>) -> Seq<RawMidiEvent>;

/// The number of messages that the ring of this end holds at most.
pub uninterp spec fn ring_size(producer: rtrb::Producer<RawMidiEvent>) -> nat;

/// All messages that this end has taken off its ring so far, oldest first.
pub uninterp spec fn taken(consumer: rtrb::Consumer<RawMidiEvent>) -> Seq<RawMidiEvent>;

/// The messages that were left for this end on its ring when it last looked,
/// oldest first.
pub uninterp spec fn waiting(consumer: rtrb::Consumer<RawMidiEvent>) -> Seq<RawMidiEvent>;

/// Whether what is put on the ring at this writing end comes out at this
/// reading end.
pub uninterp spec fn joins(
    producer: rtrb::Producer<RawMidiEvent>,
    consumer: rtrb::Consumer<RawMidiEvent>,
) -> bool;

/// `rtrb::RingBuffer::new`: the two ends of one empty ring of the given size,
/// through which nothing has gone yet.
#[verifier::external_body]
pub(crate) fn new_ring(size: usize) -> (r: (
    rtrb::Producer<RawMidiEvent>,
    rtrb::Consumer<RawMidiEvent>,
))
    requires
        0 < size <= 0x1_0000,
    ensures
        joins(r.0, r.1),
        put(r.0) == Seq::<RawMidiEvent>::empty(),
        ring_size(r.0) == size,
        taken(r.1) == Seq::<RawMidiEvent>::empty(),
        waiting(r.1) == Seq::<RawMidiEvent>::empty(),
{
    rtrb::RingBuffer::new(size)
}

/// `rtrb::Producer::push`: puts a message on the ring, or leaves the ring as
/// it is where the ring is full. It cannot be full before as many messages
/// have been put on it as it holds; after that it depends on what the reading
/// end has taken meanwhile, of which nothing is claimed. The end stays on its
/// ring.
#[verifier::external_body]
pub(crate) fn push_event(producer: &mut rtrb::Producer<RawMidiEvent>, event: RawMidiEvent) -> (r:
    bool)
    ensures
        r ==> put(*final(producer)) == put(*old(producer)).push(event),
        !r ==> put(*final(producer)) == put(*old(producer)),
        put(*old(producer)).len() < ring_size(*old(producer)) ==> r,
        ring_size(*final(producer)) == ring_size(*old(producer)),
        forall|consumer: rtrb::Consumer<RawMidiEvent>| #[trigger]
            joins(*final(producer), consumer) == joins(*old(producer), consumer),
{
    producer.push(event).is_ok()
}

/// `rtrb::Consumer::pop`: takes the oldest message off the ring, and gives
/// none only where it finds the ring empty. Which message it is, and whether
/// there is one, rests on what the writing end has put there from its own
/// thread; nothing is claimed of that. The end stays on its ring.
#[verifier::external_body]
fn pop_event(consumer: &mut rtrb::Consumer<RawMidiEvent>) -> (r: Option<RawMidiEvent>)
    ensures
        match r {
            Some(event) => taken(*final(consumer)) == taken(*old(consumer)).push(event),
            None => {
                &&& taken(*final(consumer)) == taken(*old(consumer))
                &&& waiting(*final(consumer)) == Seq::<RawMidiEvent>::empty()
            },
        },
        forall|producer: rtrb::Producer<RawMidiEvent>| #[trigger]
            joins(producer, *final(consumer)) == joins(producer, *old(consumer)),
{
    consumer.pop().ok()
}

// ── The bridge ──────────────────────────────────────────────────────────────

/// Sits on the audio thread, takes MIDI off the ring and makes plugin events
/// of it.
pub struct MidiBridge {
    pub consumer: rtrb::Consumer<RawMidiEvent>,
    pub note_port_index: u16,
    pub prefers_midi: bool,
}

impl MidiBridge {
    /// A bridge to the note port that was found; without one, the plugin gets
    /// MIDI on port 0.
    pub fn new(consumer: rtrb::Consumer<RawMidiEvent>, note_port: Option<(u16, bool)>) -> (r: Self)
        ensures
            r.consumer == consumer,
            (r.note_port_index, r.prefers_midi) == (match note_port {
                Some(found) => found,
                None => (0u16, true),
            }),
    {
        let (note_port_index, prefers_midi): (u16, bool) = match note_port {
            Some(found) => found,
            None => (0, true),
        };
        MidiBridge { consumer, note_port_index, prefers_midi }
    }

    /// Takes all pending messages off the ring, until it is found empty, and
    /// makes plugin events of them, in order. Called once per audio block.
    pub fn drain_to_input_events(&mut self) -> (r: Vec<BridgeEvent>)
        ensures
            taken(old(self).consumer).is_prefix_of(taken(final(self).consumer)),
            waiting(final(self).consumer) == Seq::<RawMidiEvent>::empty(),
            forall|producer: rtrb::Producer<RawMidiEvent>| #[trigger]
                joins(producer, final(self).consumer) == joins(producer, old(self).consumer),
            r@ == translated_all(
                taken(final(self).consumer).skip(taken(old(self).consumer).len() as int),
                old(self).note_port_index,
                old(self).prefers_midi,
            ),
            final(self).note_port_index == old(self).note_port_index,
            final(self).prefers_midi == old(self).prefers_midi,
    {
        let ghost start = taken(self.consumer);
        let mut pending: Vec<RawMidiEvent> = Vec::new();
        assert(start + pending@ =~= start);
        loop
            invariant
                taken(self.consumer) == start + pending@,
                forall|producer: rtrb::Producer<RawMidiEvent>| #[trigger]
                    joins(producer, self.consumer) == joins(producer, old(self).consumer),
                self.note_port_index == old(self).note_port_index,
                self.prefers_midi == old(self).prefers_midi,
            ensures
                taken(self.consumer) == start + pending@,
                waiting(self.consumer) == Seq::<RawMidiEvent>::empty(),
                forall|producer: rtrb::Producer<RawMidiEvent>| #[trigger]
                    joins(producer, self.consumer) == joins(producer, old(self).consumer),
                self.note_port_index == old(self).note_port_index,
                self.prefers_midi == old(self).prefers_midi,
            decreases usize::MAX - pending.len(),
        {
            match pop_event(&mut self.consumer) {
                Some(raw) => {
                    let ghost before = pending@;
                    pending.push(raw);
                    assert((start + before).push(raw) =~= start + pending@);
                },
                None => {
                    break;
                },
            }
        }
        assert((start + pending@).skip(start.len() as int) =~= pending@);
        translate_all(&pending, self.note_port_index, self.prefers_midi)
    }
}

/// The events that several messages become, in order.
pub fn translate_all(messages: &Vec<RawMidiEvent>, port: u16, prefers_midi: bool) -> (r: Vec<
    BridgeEvent,
>)
    ensures
        r@ == translated_all(messages@, port, prefers_midi),
{
    let mut out: Vec<BridgeEvent> = Vec::new();
    let mut i: usize = 0;
    assert(messages@.take(0) =~= Seq::empty());
    while i < messages.len()
        invariant
            i <= messages.len(),
            out@ == translated_all(messages@.take(i as int), port, prefers_midi),
        decreases messages.len() - i,
    {
        assert(messages@.take(i + 1).drop_last() =~= messages@.take(i as int));
        match translate(&messages[i], port, prefers_midi) {
            Some(event) => {
                out.push(event);
            },
            None => {},
        }
        i = i + 1;
    }
    assert(messages@.take(messages@.len() as int) =~= messages@);
    out
}

// ── Finding the note port ───────────────────────────────────────────────────

/// The note dialects of a port that the host knows how to speak.
#[derive(Debug, Clone, Copy, PartialEq, Eq)]
pub struct PortDialects {
    pub clap: bool,
    pub midi: bool,
}

/// Whether a reported note port can be used at all.
pub open spec fn is_usable(port: Option<PortDialects>) -> bool {
    port matches Some(dialects) && (dialects.clap || dialects.midi)
}

/// The first note port that speaks a dialect of the host's, and whether it
/// prefers MIDI, which it does where it does not speak CLAP.
///
/// An item is `None` where that port could not be read. At most 65535 ports
/// are looked at.
pub fn find_main_note_port_index(ports: &Vec<Option<PortDialects>>) -> (r: Option<(u16, bool)>)
    ensures
        match r {
            Some((index, prefers_midi)) => {
                &&& index < ports@.len()
                &&& index < u16::MAX
                &&& is_usable(ports@[index as int])
                &&& prefers_midi == !(ports@[index as int]->0).clap
                &&& forall|i: int| 0 <= i < index ==> !is_usable(#[trigger] ports@[i])
            },
            None => forall|i: int|
                0 <= i < ports@.len() && i < u16::MAX ==> !is_usable(#[trigger] ports@[i]),
        },
{
    let count: usize = if ports.len() <= u16::MAX as usize {
        ports.len()
    } else {
        u16::MAX as usize
    };
    let mut i: usize = 0;
    while i < count
        invariant
            i <= count <= ports.len(),
            count <= u16::MAX,
            count == ports.len() || count == u16::MAX,
            forall|j: int| 0 <= j < i ==> !is_usable(#[trigger] ports@[j]),
        decreases count - i,
    {
        match &ports[i] {
            Some(dialects) => {
                if dialects.clap || dialects.midi {
                    return Some((i as u16, !dialects.clap));
                }
            },
            None => {},
        }
        i = i + 1;
    }
    None
}

// ── Laws of the bridge ──────────────────────────────────────────────────────

/// Every message of three bytes becomes exactly one event, on the given port;
/// a shorter one becomes none.
pub proof fn law_every_full_message_arrives(message: Seq<u8>, port: u16, prefers_midi: bool)
    ensures
        translated(message, port, prefers_midi) is Some <==> message.len() >= 3,
        translated(message, port, prefers_midi) matches Some(event) ==> match event {
            BridgeEvent::NoteOn { port: p, .. } => p == port,
            BridgeEvent::NoteOff { port: p, .. } => p == port,
            BridgeEvent::Midi { port: p, .. } => p == port,
        },
{
}

/// A message that is not about a note goes to the plugin as it came, whatever
/// the plugin prefers; and so does every message to one that prefers MIDI.
pub proof fn law_other_messages_go_through(
    status: u8,
    data1: u8,
    data2: u8,
    port: u16,
    prefers_midi: bool,
)
    requires
        prefers_midi || !(0x80 <= status <= 0x9F),
    ensures
        translated(seq![status, data1, data2], port, prefers_midi) == Some(
            BridgeEvent::Midi { port, status, data1, data2 },
        ),
{
    assert(status / 16 == 8 <==> 0x80 <= status <= 0x8F);
    assert(status / 16 == 9 <==> 0x90 <= status <= 0x9F);
}

/// For a plugin that speaks notes, a message from 0x90 with a velocity starts
/// its note on its channel, and one without a velocity, or from 0x80, ends it.
pub proof fn law_notes_become_notes(channel: u8, key: u8, velocity: u8, port: u16)
    requires
        channel < 16,
    ensures
        velocity > 0 ==> translated(seq![(0x90 + channel) as u8, key, velocity], port, false)
            == Some(BridgeEvent::NoteOn { port, channel, key: key as u16, velocity }),
        translated(seq![(0x90 + channel) as u8, key, 0u8], port, false) == Some(
            BridgeEvent::NoteOff { port, channel, key: key as u16 },
        ),
        translated(seq![(0x80 + channel) as u8, key, velocity], port, false) == Some(
            BridgeEvent::NoteOff { port, channel, key: key as u16 },
        ),
{
    let on = (0x90 + channel) as u8;
    let off = (0x80 + channel) as u8;
    assert(on / 16 == 9 && on % 16 == channel);
    assert(off / 16 == 8 && off % 16 == channel);
}

/// Several messages become the events of each, in order.
pub proof fn law_messages_keep_their_order(
    a: Seq<RawMidiEvent>,
    b: Seq<RawMidiEvent>,
    one: RawMidiEvent,
    port: u16,
    prefers_midi: bool,
)
    ensures
        translated_all(a + b, port, prefers_midi) == translated_all(a, port, prefers_midi)
            + translated_all(b, port, prefers_midi),
        translated_all(seq![one], port, prefers_midi) == (match translated(
            one@,
            port,
            prefers_midi,
        ) {
            Some(event) => seq![event],
            None => Seq::empty(),
        }),
    decreases b.len(),
{
    reveal_with_fuel(translated_all, 2);
    assert(seq![one].drop_last() =~= Seq::<RawMidiEvent>::empty());
    match translated(one@, port, prefers_midi) {
        Some(event) => {
            assert(translated_all(seq![one], port, prefers_midi) =~= seq![event]);
        },
        None => {},
    }
    if b.len() == 0 {
        assert(a + b =~= a);
        assert(translated_all(a, port, prefers_midi) + translated_all(b, port, prefers_midi)
            =~= translated_all(a, port, prefers_midi));
    } else {
        law_messages_keep_their_order(a, b.drop_last(), one, port, prefers_midi);
        assert((a + b).drop_last() =~= a + b.drop_last());
        assert((a + b).last() == b.last());
        assert(translated_all(a + b, port, prefers_midi) =~= translated_all(a, port, prefers_midi)
            + translated_all(b, port, prefers_midi));
    }
}

/// A note port can be used where it was read and speaks CLAP's notes or MIDI.
pub proof fn law_usable_ports(dialects: PortDialects)
    ensures
        !is_usable(None),
        is_usable(Some(dialects)) <==> dialects.clap || dialects.midi,
{
}

} // verus!

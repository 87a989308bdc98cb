use nih_plug_playground::midi_engine::{
    enumerate_ports, note_off_bytes, note_on_bytes, MidiEngine, MidiEvent, MidiEventLog,
    MidiMessageKind, MidiStatus,
};
use nih_plug_playground::plugin_host::midi_bridge::{
    find_main_note_port_index, translate, translate_all, BridgeEvent, PortDialects, RawMidiEvent,
};

fn kind(data: &[u8]) -> MidiMessageKind {
    MidiEvent::parse(5, data).kind
}

#[test]
fn messages_are_understood() {
    assert_eq!(MidiEvent::parse(5, &[]).timestamp_us, 5);
    assert_eq!(
        kind(&[0x93, 60, 100]),
        MidiMessageKind::NoteOn { channel: 3, note: 60, velocity: 100 }
    );
    assert_eq!(kind(&[0x93, 60, 0]), MidiMessageKind::NoteOff { channel: 3, note: 60 });
    assert_eq!(kind(&[0x8f, 1, 64]), MidiMessageKind::NoteOff { channel: 15, note: 1 });
    assert_eq!(
        kind(&[0xb0, 7, 127]),
        MidiMessageKind::ControlChange { channel: 0, cc: 7, value: 127 }
    );
    assert_eq!(kind(&[0xe1, 0, 64]), MidiMessageKind::PitchBend { channel: 1, value: 0 });
    assert_eq!(kind(&[0xe1, 127, 127]), MidiMessageKind::PitchBend { channel: 1, value: 8191 });
    assert_eq!(kind(&[0xe1, 0, 0]), MidiMessageKind::PitchBend { channel: 1, value: -8192 });
}

#[test]
fn other_messages_stay_bytes() {
    assert_eq!(kind(&[]), MidiMessageKind::Other(vec![]));
    assert_eq!(kind(&[0x90, 60]), MidiMessageKind::Other(vec![0x90, 60]));
    assert_eq!(kind(&[0xc0, 5]), MidiMessageKind::Other(vec![0xc0, 5]));
    assert_eq!(kind(&[0xf0, 1, 2]), MidiMessageKind::Other(vec![0xf0, 1, 2]));
    assert_eq!(kind(&[0x90, 1, 2, 3]), MidiMessageKind::Other(vec![0x90, 1, 2, 3]));
}

#[test]
fn notes_are_read_back() {
    assert_eq!(note_on_bytes(17, 200, 255), [0x91, 72, 127]);
    assert_eq!(note_off_bytes(3, 60), [0x83, 60, 0]);
    assert_eq!(
        kind(&note_on_bytes(2, 61, 90)),
        MidiMessageKind::NoteOn { channel: 2, note: 61, velocity: 90 }
    );
    assert_eq!(
        kind(&note_on_bytes(2, 61, 128)),
        MidiMessageKind::NoteOff { channel: 2, note: 61 }
    );
    assert_eq!(
        kind(&note_off_bytes(2, 61)),
        MidiMessageKind::NoteOff { channel: 2, note: 61 }
    );
}

#[test]
fn the_log_keeps_the_newest_events() {
    let mut log = MidiEventLog::new();
    for stamp in 0..300 {
        log.record(MidiEvent::parse(stamp, &[0x90, 60, 1]));
    }
    let events = log.drain_events();
    assert_eq!(events.len(), 256);
    assert_eq!(events[0].timestamp_us, 44);
    assert_eq!(events[255].timestamp_us, 299);
    assert_eq!(log.drain_events().len(), 0);
}

fn names(list: &[&str]) -> Vec<String> {
    list.iter().map(|s| s.to_string()).collect()
}

#[test]
fn unreadable_ports_are_left_out() {
    assert_eq!(
        enumerate_ports(&vec![Some("a".to_string()), None, Some("b".to_string())]),
        names(&["a", "b"])
    );
}

#[test]
fn the_first_ports_are_chosen() {
    let e = MidiEngine::new(names(&["in"]), names(&[]));
    assert_eq!(e.selected_input_idx, Some(0));
    assert_eq!(e.selected_output_idx, None);
    assert_eq!(e.status, MidiStatus::Disconnected);
}

#[test]
fn the_status_tells_what_is_open() {
    let mut e = MidiEngine::new(names(&["in"]), names(&["out"]));
    e.connect(true, true);
    assert_eq!(e.status, MidiStatus::Connected);
    e.connect(true, false);
    assert_eq!(e.status, MidiStatus::InputOnly);
    assert!(!e.output_open);
    e.connect(false, true);
    assert_eq!(e.status, MidiStatus::OutputOnly);
    e.connect(false, false);
    assert_eq!(e.status, MidiStatus::Error("No ports could be opened".to_string()));
    e.connect(true, true);
    e.disconnect();
    assert_eq!(e.status, MidiStatus::Disconnected);
    assert!(!e.input_open && !e.output_open);
}

#[test]
fn refreshing_disconnects_and_drops_choices() {
    let mut e = MidiEngine::new(names(&["a", "b"]), names(&["c"]));
    e.selected_input_idx = Some(1);
    e.connect(true, true);
    e.refresh_ports(names(&["a"]), names(&["c", "d"]));
    assert_eq!(e.status, MidiStatus::Disconnected);
    assert_eq!(e.selected_input_idx, None);
    assert_eq!(e.selected_output_idx, Some(0));
    assert_eq!(e.output_port_names, names(&["c", "d"]));
}

#[test]
fn messages_go_out_while_a_port_is_open() {
    let mut e = MidiEngine::new(names(&[]), names(&["out"]));
    assert_eq!(e.send(&[1, 2]), None);
    assert_eq!(e.send_note_on(0, 60, 100), None);
    e.connect(false, true);
    assert_eq!(e.send(&[1, 2]), Some(vec![1, 2]));
    assert_eq!(e.send_note_on(1, 60, 100), Some(vec![0x91, 60, 100]));
    assert_eq!(e.send_note_off(1, 60), Some(vec![0x81, 60, 0]));
}

#[test]
fn raw_messages_have_one_to_three_bytes() {
    assert!(RawMidiEvent::from_bytes(&[]).is_none());
    assert!(RawMidiEvent::from_bytes(&[1, 2, 3, 4]).is_none());
    assert_eq!(RawMidiEvent::from_bytes(&[7]).unwrap().bytes(), vec![7]);
    assert_eq!(RawMidiEvent::from_bytes(&[7, 8]).unwrap().bytes(), vec![7, 8]);
    assert_eq!(RawMidiEvent::from_array([7, 8, 9]).bytes(), vec![7, 8, 9]);
}

#[test]
fn notes_become_plugin_events() {
    let on = RawMidiEvent::from_array(note_on_bytes(2, 60, 100));
    let off = RawMidiEvent::from_array(note_off_bytes(2, 60));
    let quiet = RawMidiEvent::from_array([0x92, 60, 0]);
    let wheel = RawMidiEvent::from_array([0xe2, 1, 2]);
    let short = RawMidiEvent::from_bytes(&[0x92, 60]).unwrap();
    assert_eq!(
        translate(&on, 4, false),
        Some(BridgeEvent::NoteOn { port: 4, channel: 2, key: 60, velocity: 100 })
    );
    let end = BridgeEvent::NoteOff { port: 4, channel: 2, key: 60 };
    assert_eq!(translate(&off, 4, false), Some(end));
    assert_eq!(translate(&quiet, 4, false), Some(end));
    assert_eq!(translate(&short, 4, false), None);
    assert_eq!(
        translate_all(&vec![short, wheel, off], 4, false),
        vec![
            BridgeEvent::Midi { port: 4, status: 0xe2, data1: 1, data2: 2 },
            end
        ]
    );
    assert_eq!(
        translate(&on, 4, true),
        Some(BridgeEvent::Midi { port: 4, status: 0x92, data1: 60, data2: 100 })
    );
}

#[test]
fn the_first_usable_note_port_is_found() {
    let clap = Some(PortDialects { clap: true, midi: true });
    let midi = Some(PortDialects { clap: false, midi: true });
    let neither = Some(PortDialects { clap: false, midi: false });
    assert_eq!(find_main_note_port_index(&vec![]), None);
    assert_eq!(find_main_note_port_index(&vec![None, neither]), None);
    assert_eq!(find_main_note_port_index(&vec![None, neither, midi, clap]), Some((2, true)));
    assert_eq!(find_main_note_port_index(&vec![clap, midi]), Some((0, false)));
}

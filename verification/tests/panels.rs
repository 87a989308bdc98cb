use nih_plug_playground::midi_engine::{MidiEngine, MidiEvent, MidiMessageKind, MidiStatus};
use nih_plug_playground::plugin_host::{HostStatus, LoadOutcome, PluginHost, PluginMode};
use nih_plug_playground::plugin_host::loader::PluginBinary;
use nih_plug_playground::plugin_host::midi_bridge::{BridgeEvent, MidiBridge};
use nih_plug_playground::ui::file_browser::{
    file_icon, list_entries, read_directory, BrowserRow, DirEntry, FileBrowser,
};
use nih_plug_playground::ui::midi_panel::{
    black_key_note, connect_button, describe, midi_banner, midi_error, note_at, note_name,
    port_label, press, white_key_note, FoundPorts, MidiSettingsInput, MidiSettingsPanel,
    MidiSettingsRequest, PianoControls, PianoMessage, PianoWidget, PointerFrame,
    PointerPosition,
};
use nih_plug_playground::ui::new_project_dialog::{
    DialogInput, NewProjectDialog, NewProjectResult,
};
use nih_plug_playground::ui::plugin_panel::{
    deliver, gui_button, host_banner, host_error, mode_label, plugin_line, routing_line,
    PluginPanel, PluginPanelInput, PluginPanelRequest,
};
use nih_plug_playground::ui::Color;

fn entry(name: &str, is_dir: bool) -> DirEntry {
    DirEntry {
        path: format!("/p/{name}"),
        sort_key: name.as_bytes().to_vec(),
        name: name.to_string(),
        is_dir,
    }
}

#[test]
fn directories_are_listed_first() {
    let entries = vec![
        entry("b.rs", false),
        entry("target", true),
        entry("src", true),
        entry(".git", true),
        entry("B.rs", false),
        entry(".hidden", false),
        entry("assets", true),
        entry("b", false),
    ];
    let names: Vec<String> = list_entries(entries).into_iter().map(|e| e.name).collect();
    assert_eq!(names, vec!["assets", "src", "B.rs", "b", "b.rs"]);
    assert_eq!(list_entries(vec![]), vec![]);
}

#[test]
fn entries_that_are_alike_keep_their_order() {
    let mut first = entry("a", false);
    first.path = "1".to_string();
    let mut second = entry("a", false);
    second.path = "2".to_string();
    let paths: Vec<String> =
        list_entries(vec![first, second]).into_iter().map(|e| e.path).collect();
    assert_eq!(paths, vec!["1", "2"]);
}

#[test]
fn files_have_icons() {
    assert_eq!(file_icon("lib.rs"), "🦀");
    assert_eq!(file_icon("Cargo.toml"), "⚙");
    assert_eq!(file_icon("README.md"), "📝");
    assert_eq!(file_icon("Cargo.lock"), "🔒");
    assert_eq!(file_icon("rs"), "📄");
}

#[test]
fn a_directory_is_folded_and_unfolded() {
    let mut browser = FileBrowser::new();
    let src = entry("src", true);
    assert_eq!(browser.row_label(&src), "📁 src");
    assert_eq!(browser.show(Some(&src)), None);
    assert!(browser.is_expanded("/p/src"));
    assert!(!browser.is_expanded("/p/assets"));
    assert_eq!(browser.row_label(&src), "📂 src");
    assert_eq!(browser.show(Some(&src)), None);
    assert!(!browser.is_expanded("/p/src"));
    assert_eq!(browser.show(None), None);
}

#[test]
fn rows_inside_follow_an_unfolded_directory() {
    let mut browser = FileBrowser::new();
    let labels = |browser: &FileBrowser| {
        let mut nodes = read_directory(Some(vec![entry("a.rs", false), entry("src", true)]));
        nodes[0].inside = read_directory(Some(vec![entry("b.md", false), entry(".x", false)]));
        nodes[1].inside = read_directory(Some(vec![entry("c", false)]));
        let shown: Vec<String> = browser
            .outline(&nodes)
            .into_iter()
            .map(|row| match row {
                BrowserRow::Entry { label, .. } => label,
                BrowserRow::Enter => ">".to_string(),
                BrowserRow::Leave => "<".to_string(),
            })
            .collect();
        shown
    };
    assert_eq!(labels(&browser), vec!["📁 src", "🦀 a.rs"]);
    browser.toggle("/p/src");
    assert!(browser.shows_inside(&entry("src", true)));
    assert!(!browser.shows_inside(&entry("src", false)));
    assert_eq!(labels(&browser), vec!["📂 src", ">", "📝 b.md", "<", "🦀 a.rs"]);
    assert!(read_directory(None).is_empty());
}

#[test]
fn a_file_is_opened() {
    let mut browser = FileBrowser::new();
    let lib = entry("lib.rs", false);
    assert_eq!(browser.row_label(&lib), "🦀 lib.rs");
    assert_eq!(browser.show(Some(&lib)), Some("/p/lib.rs".to_string()));
    assert!(!browser.is_expanded("/p/lib.rs"));
    assert_eq!(FileBrowser::heading(Some("gain")), "gain");
    assert_eq!(FileBrowser::heading(None), "Project");
}

#[test]
fn keys_have_notes() {
    let white: Vec<u8> = (0..8).map(|i| white_key_note(40, i)).collect();
    assert_eq!(white, vec![36, 38, 40, 41, 43, 45, 47, 48]);
    let black: Vec<Option<u8>> = (0..8).map(|i| black_key_note(36, i)).collect();
    assert_eq!(
        black,
        vec![Some(37), Some(39), None, Some(42), Some(44), Some(46), None, Some(49)]
    );
    assert_eq!(white_key_note(252, 1), 254);
    assert_eq!(white_key_note(252, 6), 255);
    assert_eq!(white_key_note(0, 148), 254);
    assert_eq!(black_key_note(0, 148), Some(255));
}

#[test]
fn notes_have_names() {
    assert_eq!(note_name(60), "C4");
    assert_eq!(note_name(0), "C-1");
    assert_eq!(note_name(127), "G9");
    assert_eq!(note_name(61), "C#4");
    assert_eq!(note_name(255), "D#20");
    assert_eq!(PianoWidget::key_label(48), Some("C3".to_string()));
    assert_eq!(PianoWidget::key_label(49), None);
}

fn at(x: i64, y: i64) -> PointerPosition {
    PointerPosition {
        x_floor: x,
        x_ceil: x,
        y_floor: y,
        y_ceil: y,
    }
}

#[test]
fn black_keys_lie_on_top() {
    assert_eq!(note_at(36, 28, &at(0, 0)), Some(36));
    assert_eq!(note_at(36, 28, &at(15, 0)), Some(36));
    assert_eq!(note_at(36, 28, &at(16, 0)), Some(37));
    assert_eq!(note_at(36, 28, &at(32, 50)), Some(37));
    assert_eq!(note_at(36, 28, &at(33, 50)), Some(38));
    assert_eq!(note_at(36, 28, &at(20, 51)), Some(36));
    assert_eq!(note_at(36, 28, &at(24, 51)), Some(38));
    assert_eq!(note_at(36, 28, &at(64, 0)), Some(40));
    assert_eq!(note_at(36, 28, &at(-5, 60)), Some(36));
    assert_eq!(note_at(36, 28, &at(672, 60)), None);
    let edge = PointerPosition { x_floor: 32, x_ceil: 33, y_floor: 0, y_ceil: 0 };
    assert_eq!(note_at(36, 28, &edge), Some(38));
}

fn pointer(position: Option<PointerPosition>, is_down: bool) -> PointerFrame {
    PointerFrame {
        position,
        is_down,
        drag_stopped: false,
    }
}

#[test]
fn pressing_dragging_and_releasing_a_key() {
    let mut piano = PianoWidget::default();
    assert_eq!(piano.play(&pointer(Some(at(0, 70)), false)), vec![]);
    assert_eq!(piano.hovered_note, Some(36));
    let on = |note| PianoMessage::NoteOn { channel: 0, note, velocity: 100 };
    let off = |note| PianoMessage::NoteOff { channel: 0, note };
    assert_eq!(piano.play(&pointer(Some(at(0, 70)), true)), vec![on(36)]);
    assert_eq!(piano.play(&pointer(Some(at(1, 70)), true)), vec![]);
    assert_eq!(piano.play(&pointer(Some(at(30, 70)), true)), vec![on(38), off(36)]);
    assert_eq!(piano.held_notes, vec![38]);
    assert_eq!(piano.play(&pointer(None, true)), vec![]);
    assert_eq!(piano.held_notes, vec![38]);
    assert_eq!(piano.hovered_note, None);
    assert_eq!(piano.play(&pointer(None, false)), vec![off(38)]);
    assert_eq!(piano.held_notes, Vec::<u8>::new());
    assert_eq!(
        piano.event_log,
        vec![
            "► NoteOn  ch:1 C2 vel:100",
            "► NoteOn  ch:1 D2 vel:100",
            "◀ NoteOff ch:1 D2"
        ]
    );
}

#[test]
fn a_drag_that_stops_on_a_key_presses_it_again() {
    let mut piano = PianoWidget::default();
    piano.play(&pointer(Some(at(0, 70)), true));
    let stopped = PointerFrame {
        position: Some(at(0, 70)),
        is_down: true,
        drag_stopped: true,
    };
    assert_eq!(
        piano.play(&stopped),
        vec![
            PianoMessage::NoteOff { channel: 0, note: 36 },
            PianoMessage::NoteOn { channel: 0, note: 36, velocity: 100 }
        ]
    );
    assert_eq!(piano.held_notes, vec![36]);
}

#[test]
fn held_keys_stand_out() {
    let mut piano = PianoWidget::default();
    piano.play(&pointer(Some(at(0, 70)), true));
    assert_eq!(piano.key_color(true, 36), Color::Rgb(100, 180, 255));
    assert_eq!(piano.key_color(true, 38), Color::White);
    assert_eq!(piano.key_color(false, 37), Color::Rgb(30, 30, 30));
    piano.play(&pointer(Some(at(20, 10)), false));
    assert_eq!(piano.key_color(false, 37), Color::Rgb(80, 80, 120));
    piano.play(&pointer(Some(at(20, 10)), true));
    assert_eq!(piano.key_color(false, 37), Color::Rgb(60, 120, 220));
    piano.play(&pointer(Some(at(50, 70)), false));
    assert_eq!(piano.key_color(true, 40), Color::Rgb(220, 230, 255));
}

#[test]
fn the_controls_of_the_piano() {
    let mut piano = PianoWidget::default();
    assert_eq!(piano.octave_label(), "C2");
    piano.octave_up();
    assert_eq!((piano.start_note, piano.octave_label().as_str()), (48, "C3"));
    for _ in 0..20 {
        piano.octave_up();
    }
    assert_eq!(piano.start_note, 108);
    for _ in 0..20 {
        piano.octave_down();
    }
    assert_eq!((piano.start_note, piano.octave_label().as_str()), (0, "C-1"));
    piano.set_velocity(0);
    assert_eq!(piano.velocity, 1);
    piano.set_velocity(200);
    assert_eq!(piano.velocity, 127);
    piano.set_shown_channel(0);
    assert_eq!(piano.channel, 0);
    piano.set_shown_channel(17);
    assert_eq!(piano.channel, 15);
    piano.set_shown_channel(3);
    assert_eq!(piano.channel, 2);
}

#[test]
fn a_frame_of_the_piano() {
    let mut piano = PianoWidget::default();
    let controls = PianoControls {
        octave_down: false,
        octave_up: true,
        velocity: 90,
        shown_channel: 2,
    };
    let events = vec![MidiEvent::parse(0, &[0xb0, 7, 127])];
    assert_eq!(
        piano.show(&events, &controls, &pointer(Some(at(0, 70)), true)),
        vec![PianoMessage::NoteOn { channel: 1, note: 48, velocity: 90 }]
    );
    assert_eq!(
        piano.event_log,
        vec!["CC      ch:1 cc:7 val:127", "► NoteOn  ch:2 C3 vel:90"]
    );
}

#[test]
fn messages_in_words() {
    assert_eq!(
        describe(&MidiMessageKind::NoteOn { channel: 0, note: 60, velocity: 100 }),
        "NoteOn  ch:1 note:60 (C4) vel:100"
    );
    assert_eq!(
        describe(&MidiMessageKind::NoteOff { channel: 15, note: 0 }),
        "NoteOff ch:16 note:0 (C-1)"
    );
    assert_eq!(
        describe(&MidiMessageKind::PitchBend { channel: 1, value: -8192 }),
        "PBend   ch:2 val:-8192"
    );
    assert_eq!(describe(&MidiMessageKind::Other(vec![])), "Other   []");
    assert_eq!(describe(&MidiMessageKind::Other(vec![1, 20, 255])), "Other   [1, 20, 255]");
}

#[test]
fn the_pianos_log_keeps_the_newest_lines() {
    let mut piano = PianoWidget::default();
    let events: Vec<MidiEvent> = (0..70)
        .map(|cc| MidiEvent::parse(0, &[0xb0, cc, 0]))
        .collect();
    piano.log_events(&events);
    assert_eq!(piano.event_log.len(), 64);
    assert_eq!(piano.event_log[0], "CC      ch:1 cc:6 val:0");
    assert_eq!(piano.event_log[63], "CC      ch:1 cc:69 val:0");
}

#[test]
fn the_midi_settings() {
    let mut panel = MidiSettingsPanel::default();
    let mut engine = MidiEngine::new(vec!["a".to_string()], vec![]);
    let frame = |closed, connect_pressed| MidiSettingsInput {
        closed,
        connect_pressed,
        refreshed: None,
    };
    engine.connect(true, false);
    assert_eq!(panel.show(&mut engine, frame(false, true)), None);
    assert_eq!(engine.status, MidiStatus::InputOnly);
    panel.open(&mut engine, vec!["a".to_string()], vec!["b".to_string()]);
    assert!(panel.is_open);
    assert_eq!(engine.status, MidiStatus::Disconnected);
    assert_eq!(
        panel.show(&mut engine, frame(false, true)),
        Some(MidiSettingsRequest::Connect)
    );
    assert_eq!(engine.status, MidiStatus::Disconnected);
    engine.connect(true, false);
    assert_eq!(panel.show(&mut engine, frame(false, false)), None);
    assert_eq!(engine.status, MidiStatus::InputOnly);
    assert_eq!(
        panel.show(&mut engine, frame(false, true)),
        Some(MidiSettingsRequest::Disconnect)
    );
    assert_eq!(engine.status, MidiStatus::Disconnected);
    assert!(!engine.input_open);
    engine.connect(true, false);
    let refresh = MidiSettingsInput {
        closed: true,
        connect_pressed: false,
        refreshed: Some(FoundPorts {
            inputs: vec![],
            outputs: vec!["c".to_string()],
        }),
    };
    assert_eq!(panel.show(&mut engine, refresh), None);
    assert_eq!(engine.status, MidiStatus::Disconnected);
    assert_eq!(engine.selected_input_idx, None);
    assert_eq!(engine.output_port_names, vec!["c"]);
    assert!(!panel.is_open);
    engine.selected_output_idx = Some(0);
    engine.connect(false, true);
    assert_eq!(press(&mut engine), MidiSettingsRequest::Disconnect);
    assert_eq!(press(&mut engine), MidiSettingsRequest::Connect);
}

#[test]
fn the_midi_status_in_words() {
    let error = MidiStatus::Error("e".to_string());
    assert_eq!(midi_banner(&MidiStatus::Disconnected), ("● Disconnected", Color::DarkGray));
    assert_eq!(midi_banner(&MidiStatus::InputOnly), ("● Input only", Color::Yellow));
    assert_eq!(midi_banner(&MidiStatus::OutputOnly), ("● Output only", Color::Yellow));
    assert_eq!(midi_banner(&MidiStatus::Connected), ("● Connected", Color::Rgb(100, 220, 100)));
    assert_eq!(midi_banner(&error), ("✗  Error", Color::Rgb(255, 90, 90)));
    assert_eq!(midi_error(&error), Some(&"e".to_string()));
    assert_eq!(midi_error(&MidiStatus::Connected), None);
    assert_eq!(connect_button(&error), ("▶  Connect", MidiSettingsRequest::Connect));
    assert_eq!(
        connect_button(&MidiStatus::InputOnly),
        ("⏹  Disconnect", MidiSettingsRequest::Disconnect)
    );
    let names = vec!["a".to_string()];
    assert_eq!(port_label(Some(0), &names), "a");
    assert_eq!(port_label(Some(1), &names), "None");
    assert_eq!(port_label(None, &names), "None");
}

#[test]
fn a_new_project_is_asked_for() {
    let mut dialog = NewProjectDialog::default();
    let idle = DialogInput {
        create_clicked: false,
        enter_pressed: false,
        cancel_clicked: false,
        window_closed: false,
    };
    let enter = DialogInput { enter_pressed: true, ..idle };
    assert_eq!(dialog.show(&enter), NewProjectResult::Nothing);
    dialog.open(None, Some("/home/me".to_string()));
    assert_eq!(dialog.location(), "/home/me");
    assert!(dialog.wants_focus(false));
    assert!(!dialog.wants_focus(true));
    assert_eq!(dialog.preview("/home/me/"), None);
    assert_eq!(dialog.show(&enter), NewProjectResult::Nothing);
    assert!(dialog.is_open);
    dialog.project_name = "gain".to_string();
    assert_eq!(dialog.preview("/home/me/gain"), Some("→ /home/me/gain".to_string()));
    dialog.picked(None);
    dialog.picked(Some("/tmp".to_string()));
    assert_eq!(
        dialog.show(&enter),
        NewProjectResult::Create {
            project_name: "gain".to_string(),
            parent_dir: "/tmp".to_string()
        }
    );
    assert!(!dialog.is_open);
    dialog.open(Some("/docs".to_string()), Some("/home/me".to_string()));
    assert_eq!(dialog.parent_dir, Some("/docs".to_string()));
    assert_eq!(dialog.project_name, "");
}

#[test]
fn cancelling_comes_before_creating() {
    let all = DialogInput {
        create_clicked: true,
        enter_pressed: false,
        cancel_clicked: true,
        window_closed: false,
    };
    let mut dialog = NewProjectDialog::default();
    dialog.open(Some("/docs".to_string()), None);
    dialog.project_name = "gain".to_string();
    let mut closed = dialog.clone();
    assert_eq!(dialog.show(&all), NewProjectResult::Cancelled);
    assert!(!dialog.is_open);
    let close = DialogInput {
        cancel_clicked: false,
        window_closed: true,
        ..all
    };
    assert_eq!(closed.show(&close), NewProjectResult::Cancelled);
    assert!(!closed.is_open);
    let mut lost = NewProjectDialog::default();
    lost.open(None, None);
    assert_eq!(lost.location(), "Not selected");
    assert!(!lost.can_create());
}

fn loaded() -> PluginHost {
    let mut host = PluginHost::new();
    let binary = PluginBinary {
        plugin_id: "id".to_string(),
        plugin_name: "Gain".to_string(),
        path: "/g.clap".to_string(),
    };
    host.load("/g.clap", LoadOutcome::Instantiated { binary, gui: None }).unwrap();
    host
}

#[test]
fn the_plugin_in_words() {
    assert_eq!(host_banner(&HostStatus::Unloaded), ("● No plugin loaded", Color::Gray));
    assert_eq!(host_banner(&HostStatus::Loaded), ("● Loaded (inactive)", Color::Yellow));
    assert_eq!(host_banner(&HostStatus::Active), ("● Active", Color::Rgb(100, 220, 100)));
    assert_eq!(host_banner(&HostStatus::Processing), ("● Processing", Color::Rgb(100, 255, 100)));
    let error = HostStatus::Error("e".to_string());
    assert_eq!(host_banner(&error), ("● Error", Color::Red));
    assert_eq!(host_error(&error), Some("Error: e".to_string()));
    assert_eq!(host_error(&HostStatus::Active), None);
    assert_eq!(plugin_line(&Some("Gain".to_string())), Some("Plugin: Gain".to_string()));
    assert_eq!(plugin_line(&None), None);
    assert_eq!(mode_label(PluginMode::Instrument), "🎹 Instrument");
    assert_eq!(mode_label(PluginMode::Effect), "🎛 Effect");
}

#[test]
fn the_buttons_of_the_plugin() {
    let mut panel = PluginPanel::default();
    let mut host = PluginHost::new();
    let input = PluginPanelInput {
        mode: PluginMode::Effect,
        gui_clicked: true,
        unload_clicked: true,
        piano_clicked: true,
    };
    assert_eq!(gui_button(&host), None);
    assert_eq!(panel.show(&mut host, &input), vec![]);
    assert_eq!(host.mode, PluginMode::Effect);
    assert!(!panel.piano_visible);
    let mut host = loaded();
    assert_eq!(gui_button(&host), Some(("Open GUI", PluginPanelRequest::OpenGui)));
    assert_eq!(
        panel.show(&mut host, &input),
        vec![PluginPanelRequest::OpenGui, PluginPanelRequest::Unload]
    );
    assert!(panel.piano_visible);
    host.gui_open = true;
    assert_eq!(gui_button(&host), Some(("Close GUI", PluginPanelRequest::CloseGui)));
}

#[test]
fn the_piano_plays_where_midi_goes() {
    let on = PianoMessage::NoteOn { channel: 1, note: 60, velocity: 100 };
    let off = PianoMessage::NoteOff { channel: 1, note: 60 };
    let mut engine = MidiEngine::new(vec![], vec!["out".to_string()]);
    let mut host = PluginHost::new();
    assert_eq!(routing_line(&host), ("MIDI → Direct Output", Color::Gray));
    assert_eq!(deliver(&mut host, &engine, &on), None);
    engine.connect(false, true);
    assert_eq!(deliver(&mut host, &engine, &on), Some(vec![0x91, 60, 100]));
    assert_eq!(deliver(&mut host, &engine, &off), Some(vec![0x81, 60, 0]));
    let mut host = loaded();
    assert_eq!(routing_line(&host), ("MIDI → Plugin", Color::Rgb(180, 180, 255)));
    host.activate(48000, 64, 64).unwrap();
    assert_eq!(deliver(&mut host, &engine, &on), Some(vec![0x91, 60, 100]));
    engine.disconnect();
    assert_eq!(deliver(&mut host, &engine, &off), None);
    let (consumer, _) = host.activate(48000, 64, 64).unwrap();
    let mut bridge = MidiBridge::new(consumer, None);
    assert_eq!(deliver(&mut host, &engine, &off), None);
    engine.connect(false, true);
    assert_eq!(deliver(&mut host, &engine, &on), Some(vec![0x91, 60, 100]));
    assert_eq!(
        bridge.drain_to_input_events(),
        vec![
            BridgeEvent::Midi { port: 0, status: 0x81, data1: 60, data2: 0 },
            BridgeEvent::Midi { port: 0, status: 0x91, data1: 60, data2: 100 },
        ]
    );
}

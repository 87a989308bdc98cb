use nih_plug_playground::plugin_host::gui::{Gui, GuiConfiguration, GuiError, GuiSize};
use nih_plug_playground::plugin_host::gui_window::{
    atom_failure, extent, window_failure, window_request, PluginGuiWindow, WindowEvent,
    WindowIds, WindowStage, WindowSystem,
};
use nih_plug_playground::plugin_host::loader::{
    bundle_binary, find_clap_bundle, load_clap_binary, FoundFile, PluginBinary, PluginDescriptor,
};
use nih_plug_playground::plugin_host::midi_bridge::{BridgeEvent, MidiBridge};
use nih_plug_playground::plugin_host::{
    EmbedOutcome, GuiStep, HostStatus, HostTask, LoadOutcome, MainThreadMessage, PluginHost,
    PluginMode, TeardownStep,
};

fn binary() -> PluginBinary {
    PluginBinary {
        plugin_id: "org.gain".to_string(),
        plugin_name: "Gain".to_string(),
        path: "/p/gain.clap".to_string(),
    }
}

fn gui(embedded: bool, floating: bool) -> Gui {
    Gui::new(Some("x11".to_string()), embedded, floating)
}

fn loaded(gui: Option<Gui>) -> PluginHost {
    let mut host = PluginHost::new();
    host.open_channel();
    let outcome = LoadOutcome::Instantiated { binary: binary(), gui };
    host.load("/p/gain.clap", outcome).unwrap();
    host
}

fn window() -> PluginGuiWindow {
    let ids = WindowIds {
        window: 42,
        atom_wm_delete_window: 7,
    };
    PluginGuiWindow::create(WindowSystem::X11, 640, 480, Ok(ids)).unwrap()
}

fn attached() -> EmbedOutcome {
    EmbedOutcome::Attached {
        can_resize: true,
        reported: Some(GuiSize { width: 300, height: 200 }),
        window: window(),
    }
}

fn configuration(is_floating: bool) -> GuiConfiguration {
    GuiConfiguration {
        api_type: "x11".to_string(),
        is_floating,
    }
}

#[test]
fn the_first_plugin_of_a_file_is_taken() {
    let descriptors = vec![
        PluginDescriptor { id: None, name: Some("Hidden".to_string()) },
        PluginDescriptor { id: Some("a".to_string()), name: None },
        PluginDescriptor { id: Some("b".to_string()), name: Some("B".to_string()) },
    ];
    let found = load_clap_binary("/x.clap", true, &Ok(Some(descriptors))).unwrap();
    assert_eq!(found.plugin_id, "a");
    assert_eq!(found.plugin_name, "Unknown Plugin");
    assert_eq!(found.path, "/x.clap");
}

#[test]
fn a_file_may_hold_no_plugin() {
    let error = |on_disk, opened| load_clap_binary("/x.clap", on_disk, &opened).err().unwrap();
    assert_eq!(error(false, Ok(None)), "CLAP file not found: /x.clap");
    assert_eq!(error(true, Err("e".to_string())), "Failed to load CLAP entry: e");
    assert_eq!(error(true, Ok(None)), "CLAP file has no plugin factory");
    assert_eq!(error(true, Ok(Some(vec![]))), "No plugins found in CLAP file");
}

fn file(path: &str, extension: Option<&str>) -> FoundFile {
    FoundFile {
        path: path.to_string(),
        extension: extension.map(|e| e.to_string()),
    }
}

#[test]
fn the_bundle_of_a_build_is_found() {
    let files = Ok(vec![
        file("/b/a.vst3", Some("vst3")),
        file("/b/a.clap", Some("clap")),
        file("/b/b.clap", Some("clap")),
    ]);
    let bundle = find_clap_bundle("/b", true, &files).unwrap();
    assert_eq!(bundle.path, "/b/a.clap");
    assert!(bundle.ambiguous);
    let one = Ok(vec![file("/b/a.clap", Some("clap"))]);
    assert!(!find_clap_bundle("/b", true, &one).unwrap().ambiguous);
    let error = |on_disk, files| find_clap_bundle("/b", on_disk, &files).err().unwrap();
    assert_eq!(
        error(false, Ok(vec![])),
        "No target/bundled directory found at /b. Run 'cargo nih-plug bundle' first."
    );
    assert_eq!(error(true, Err("e".to_string())), "Failed to read bundled dir: e");
    assert_eq!(error(true, Ok(vec![file("/b/x", None)])), "No .clap files found in /b");
}

#[test]
fn the_library_in_a_bundle_is_loaded() {
    let inner = Ok(vec![file("/b/a.clap/x.txt", Some("txt")), file("/b/a.clap/a.so", Some("so"))]);
    assert_eq!(bundle_binary("/b/a.clap", true, &inner), Ok("/b/a.clap/a.so".to_string()));
    assert_eq!(bundle_binary("/b/a.clap", true, &Ok(vec![])), Ok("/b/a.clap".to_string()));
    assert_eq!(bundle_binary("/b/a.clap", false, &inner), Ok("/b/a.clap".to_string()));
    assert_eq!(
        bundle_binary("/b/a.clap", true, &Err("e".to_string())),
        Err("Failed to read .clap directory: e".to_string())
    );
}

#[test]
fn loading_a_plugin() {
    let host = loaded(None);
    assert_eq!(host.status, HostStatus::Loaded);
    assert!(host.is_loaded());
    assert_eq!(host.plugin_name, Some("Gain".to_string()));
    assert_eq!(host.plugin_id, Some("org.gain".to_string()));
    assert_eq!(host.loaded_path, Some("/p/gain.clap".to_string()));
    assert_eq!(host.mode, PluginMode::Instrument);
}

#[test]
fn loading_may_fail() {
    let e = || "e".to_string();
    let mut host = PluginHost::new();
    assert_eq!(host.load("/x", LoadOutcome::NoBinary(e())), Err(e()));
    assert_eq!(
        host.load("/x", LoadOutcome::NoHostInfo(e())),
        Err("Failed to create host info: e".to_string())
    );
    assert_eq!(
        host.load("/x", LoadOutcome::InvalidId(e())),
        Err("Invalid plugin ID: e".to_string())
    );
    assert_eq!(
        host.load("/x", LoadOutcome::NotInstantiated(e())),
        Err("Failed to instantiate plugin: e".to_string())
    );
    assert!(!host.is_loaded());
}

#[test]
fn a_plugin_is_loaded_before_it_is_activated() {
    let mut host = PluginHost::new();
    assert_eq!(
        host.activate(48000, 64, 128).err(),
        Some("Plugin must be loaded before activation".to_string())
    );
}

#[test]
fn activating_a_plugin() {
    let mut host = loaded(None);
    host.mode = PluginMode::Effect;
    let (_, config) = host.activate(48000, 64, 128).unwrap();
    assert_eq!(config.sample_rate, 48000);
    assert_eq!((config.min_buffer_size, config.max_buffer_size), (64, 128));
    assert_eq!(config.mode, PluginMode::Effect);
    assert_eq!(
        host.activation_finished(Err("e".to_string())),
        Err("Failed to activate plugin: e".to_string())
    );
    assert_eq!(host.status, HostStatus::Loaded);
    assert_eq!(host.activation_finished(Ok(())), Ok(()));
    assert_eq!(host.status, HostStatus::Active);
    assert!(host.activate(48000, 64, 128).is_ok());
}

#[test]
fn notes_reach_the_plugin_in_order() {
    let mut host = loaded(None);
    host.send_note_on(0, 1, 1);
    let (consumer, _) = host.activate(48000, 64, 128).unwrap();
    host.send_note_on(1, 60, 100);
    host.send_raw_midi(&[0xe1, 3, 4]);
    host.send_raw_midi(&[]);
    host.send_raw_midi(&[1, 2, 3, 4]);
    host.send_note_off(1, 60);
    let mut bridge = MidiBridge::new(consumer, Some((5, false)));
    assert_eq!(
        bridge.drain_to_input_events(),
        vec![
            BridgeEvent::NoteOn { port: 5, channel: 1, key: 60, velocity: 100 },
            BridgeEvent::Midi { port: 5, status: 0xe1, data1: 3, data2: 4 },
            BridgeEvent::NoteOff { port: 5, channel: 1, key: 60 }
        ]
    );
    assert_eq!(bridge.drain_to_input_events(), vec![]);
}

#[test]
fn a_full_ring_drops_messages() {
    let mut host = loaded(None);
    let (consumer, _) = host.activate(48000, 64, 128).unwrap();
    for _ in 0..1100 {
        host.send_note_on(0, 60, 100);
    }
    let mut bridge = MidiBridge::new(consumer, None);
    assert_eq!(bridge.note_port_index, 0);
    assert!(bridge.prefers_midi);
    assert_eq!(bridge.drain_to_input_events().len(), 1024);
    host.send_note_off(0, 60);
    assert_eq!(
        bridge.drain_to_input_events(),
        vec![BridgeEvent::Midi { port: 0, status: 0x80, data1: 60, data2: 0 }]
    );
}

#[test]
fn embedded_interfaces_are_preferred() {
    assert_eq!(gui(true, true).configuration, Some(configuration(false)));
    assert_eq!(gui(false, true).configuration, Some(configuration(true)));
    assert_eq!(gui(false, false).configuration, None);
    assert_eq!(Gui::new(None, true, true).configuration, None);
    assert_eq!(gui(true, true).needs_floating(), Some(false));
    assert_eq!(gui(false, true).needs_floating(), Some(true));
    assert_eq!(gui(false, false).needs_floating(), None);
}

#[test]
fn an_interface_that_was_created_is_destroyed_once() {
    let mut g = gui(true, false);
    assert_eq!(g.create_for_embedding(false, true, None), Err(GuiError::CreateError));
    assert!(!g.is_open);
    assert_eq!(
        g.create_for_embedding(true, true, None),
        Ok(GuiSize { width: 640, height: 480 })
    );
    assert!(g.is_open);
    assert_eq!(g.attach_and_show(false), Err(GuiError::SetParentError));
    assert_eq!(g.attach_and_show(true), Ok(()));
    assert!(g.destroy());
    assert_eq!(g.initial_size, None);
    assert!(!g.destroy());
    assert_eq!(gui(false, true).create_for_embedding(true, true, None), Err(GuiError::CreateError));
}

#[test]
fn resizing_an_interface() {
    let mut g = gui(true, false);
    let size = |n| GuiSize { width: n, height: n };
    let fixed = g.resize(size(1), Some(size(2)), Some(size(3)));
    assert_eq!((fixed.size, fixed.apply), (size(2), false));
    assert_eq!(g.resize(size(1), None, Some(size(3))).size, size(1));
    g.is_resizable = true;
    let free = g.resize(size(1), Some(size(2)), Some(size(3)));
    assert_eq!((free.size, free.apply), (size(3), true));
    assert_eq!(g.resize(size(1), Some(size(2)), None).size, size(1));
}

#[test]
fn errors_of_an_interface_in_words() {
    assert_eq!(GuiError::CreateError.words(), "Failed to create plugin GUI");
    assert_eq!(GuiError::SetParentError.words(), "Failed to set plugin window parent");
    assert_eq!(GuiError::ShowError.words(), "Failed to show plugin window");
}

#[test]
fn an_interface_is_needed_to_open_one() {
    assert_eq!(PluginHost::new().open_gui(), Err("Plugin has no GUI".to_string()));
    assert_eq!(loaded(None).open_gui(), Err("Plugin has no GUI".to_string()));
    assert_eq!(
        loaded(Some(gui(false, false))).open_gui(),
        Err("Failed to open floating GUI: Failed to create plugin GUI".to_string())
    );
}

#[test]
fn opening_a_floating_interface() {
    let mut host = loaded(Some(gui(false, true)));
    assert_eq!(
        host.open_gui(),
        Ok(GuiStep::OpenFloating { first: vec![], configuration: configuration(true) })
    );
    assert_eq!(
        host.floating_finished(Err(GuiError::ShowError)),
        Err("Failed to open floating GUI: Failed to show plugin window".to_string())
    );
    assert!(!host.is_gui_open());
    assert_eq!(host.floating_finished(Ok(())), Ok(()));
    assert!(host.is_gui_open());
    assert_eq!(host.open_gui(), Ok(GuiStep::Done));
    assert_eq!(host.close_gui(), vec![TeardownStep::DestroyPluginGui]);
    assert!(!host.is_gui_open());
    assert_eq!(host.close_gui(), vec![]);
}

#[test]
fn opening_an_embedded_interface() {
    let mut host = loaded(Some(gui(true, true)));
    assert_eq!(host.open_gui(), Ok(GuiStep::OpenEmbedded(configuration(false))));
    assert_eq!(host.embedding_finished(attached()), GuiStep::Done);
    assert!(host.is_gui_open());
    let g = host.gui.clone().unwrap();
    assert!(g.is_open && g.is_resizable);
    assert_eq!(g.initial_size, Some(GuiSize { width: 300, height: 200 }));
}

#[test]
fn a_failed_embedding_falls_back_to_floating() {
    let cases = vec![
        (EmbedOutcome::NotCreated, vec![]),
        (
            EmbedOutcome::NoWindow { can_resize: true, reported: None },
            vec![TeardownStep::DestroyPluginGui],
        ),
        (
            EmbedOutcome::NotAttached { can_resize: true, reported: None },
            vec![TeardownStep::DestroyPluginGui, TeardownStep::DropWindow],
        ),
    ];
    for (outcome, first) in cases {
        let mut host = loaded(Some(gui(true, true)));
        assert_eq!(
            host.embedding_finished(outcome),
            GuiStep::OpenFloating { first, configuration: configuration(true) }
        );
        assert!(!host.is_gui_open());
        assert!(!host.gui.clone().unwrap().is_open);
        assert_eq!(host.floating_finished(Ok(())), Ok(()));
        assert!(host.is_gui_open());
    }
}

#[test]
fn the_window_goes_after_the_plugins_interface() {
    let mut host = loaded(Some(gui(true, true)));
    host.embedding_finished(attached());
    assert_eq!(
        host.unload(),
        vec![
            TeardownStep::DestroyPluginGui,
            TeardownStep::DropWindow,
            TeardownStep::DropInstance,
            TeardownStep::DropEntry
        ]
    );
    assert!(!host.is_loaded());
    assert_eq!(host.plugin_name, None);
    assert_eq!(host.loaded_path, None);
    assert_eq!(host.unload(), vec![]);
}

#[test]
fn unloading_without_an_interface() {
    let mut host = loaded(None);
    assert_eq!(host.unload(), vec![TeardownStep::DropInstance, TeardownStep::DropEntry]);
}

#[test]
fn messages_of_the_plugin() {
    let mut host = loaded(Some(gui(false, true)));
    assert_eq!(host.poll_main_thread(), None);
    let sender = host.main_thread_tx.clone();
    sender.send(MainThreadMessage::RunOnMainThread).unwrap();
    let new_size = GuiSize { width: 1, height: 2 };
    sender.send(MainThreadMessage::GuiRequestResized { new_size }).unwrap();
    assert_eq!(host.poll_main_thread(), Some(HostTask::RunCallback));
    assert_eq!(host.poll_main_thread(), Some(HostTask::Nothing));
    host.floating_finished(Ok(())).unwrap();
    sender.send(MainThreadMessage::GuiClosed).unwrap();
    assert_eq!(host.poll_main_thread(), Some(HostTask::Nothing));
    assert!(!host.is_gui_open());
    assert_eq!(host.poll_main_thread(), None);
    sender.send(MainThreadMessage::RunOnMainThread).unwrap();
    host.open_channel();
    assert!(sender.send(MainThreadMessage::GuiClosed).is_err());
    assert_eq!(host.poll_main_thread(), None);
    host.main_thread_tx.send(MainThreadMessage::RunOnMainThread).unwrap();
    assert_eq!(host.poll_main_thread(), Some(HostTask::RunCallback));
    assert_eq!(host.poll_main_thread(), None);
}

#[test]
fn messages_about_an_embedded_interface() {
    let mut host = loaded(Some(gui(true, true)));
    host.embedding_finished(attached());
    let new_size = GuiSize { width: 0, height: 70000 };
    assert_eq!(
        host.react(MainThreadMessage::GuiRequestResized { new_size }),
        HostTask::ResizeWindow { width: 1, height: 65535 }
    );
    assert_eq!(host.gui_window.unwrap().0.height, 65535);
    assert_eq!(
        host.react(MainThreadMessage::GuiClosed),
        HostTask::TearDown(vec![TeardownStep::DestroyPluginGui, TeardownStep::DropWindow])
    );
    assert!(host.gui_window.is_none());
    let mut empty = PluginHost::new();
    assert_eq!(empty.react(MainThreadMessage::RunOnMainThread), HostTask::Nothing);
}

const OTHER_WINDOW: WindowEvent = WindowEvent::ClientMessage { window: 41, format: 32, first: 7 };
const OTHER_FORMAT: WindowEvent = WindowEvent::ClientMessage { window: 42, format: 8, first: 7 };
const OTHER_ATOM: WindowEvent = WindowEvent::ClientMessage { window: 42, format: 32, first: 8 };
const CLOSE: WindowEvent = WindowEvent::ClientMessage { window: 42, format: 32, first: 7 };

#[test]
fn a_window_is_asked_to_close() {
    let mut w = window();
    assert_eq!(w.clap_window(), 42);
    assert!(!w.poll_events(&vec![]));
    assert!(!w.poll_events(&vec![WindowEvent::Other, OTHER_WINDOW, OTHER_FORMAT, OTHER_ATOM]));
    assert!(w.poll_events(&vec![WindowEvent::Other, CLOSE]));
    assert!(w.poll_events(&vec![]));
    let mut lost = window();
    assert!(lost.poll_events(&vec![WindowEvent::ConnectionLost]));
}

#[test]
fn closing_the_window_closes_the_interface() {
    let mut host = loaded(Some(gui(true, true)));
    assert_eq!(host.poll_window(&vec![CLOSE]), vec![]);
    host.embedding_finished(attached());
    assert_eq!(host.poll_window(&vec![OTHER_ATOM]), vec![]);
    assert!(host.is_gui_open());
    assert_eq!(
        host.poll_window(&vec![CLOSE]),
        vec![TeardownStep::DestroyPluginGui, TeardownStep::DropWindow]
    );
    assert!(!host.is_gui_open());
}

#[test]
fn windows_have_a_size() {
    let request = window_request(WindowSystem::X11, "Gain", 0, 100_000);
    assert_eq!((request.width, request.height), (1, 65535));
    assert_eq!(request.title, "Gain");
    let request = window_request(WindowSystem::Win32, "Gain", 0, 100_000);
    assert_eq!((request.width, request.height), (1, 100_000));
    let mut w = window();
    assert_eq!((w.0.width, w.0.height), (640, 480));
    assert_eq!(w.resize(10, 20), (10, 20));
    assert_eq!((w.0.width, w.0.height), (10, 20));
    let ids = WindowIds { window: 1, atom_wm_delete_window: 1 };
    let mut w = PluginGuiWindow::create(WindowSystem::Win32, 70_000, 0, Ok(ids)).unwrap();
    assert_eq!((w.0.width, w.0.height), (70_000, 1));
    assert_eq!(w.resize(100_000, 20), (100_000, 20));
    assert_eq!(extent(WindowSystem::X11, 65_536), 65_535);
    assert_eq!(extent(WindowSystem::Win32, 800), 800);
    assert_eq!(extent(WindowSystem::Win32, u32::MAX), -1);
    let refused = PluginGuiWindow::create(WindowSystem::X11, 1, 1, Err("e".to_string()));
    assert_eq!(refused.err(), Some("e".to_string()));
}

#[test]
fn failures_of_a_window_in_words() {
    assert_eq!(window_failure(WindowStage::Connect, "e"), "X11 connect failed: e");
    assert_eq!(window_failure(WindowStage::GenerateId, "e"), "generate_id failed: e");
    assert_eq!(window_failure(WindowStage::MapWindow, "e"), "map_window failed: e");
    assert_eq!(window_failure(WindowStage::Flush, "e"), "flush failed: e");
    assert_eq!(atom_failure("WM_PROTOCOLS", false, "e"), "intern_atom(WM_PROTOCOLS) send: e");
    assert_eq!(atom_failure("WM_PROTOCOLS", true, "e"), "intern_atom(WM_PROTOCOLS) reply: e");
}

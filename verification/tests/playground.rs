use nih_plug_playground::app::{
    audio_menu_label, audio_pill, build_button, midi_menu_label, midi_pill, plugin_pill, shortcut,
    AppAction, AppRequest, PlaygroundApp,
};
use nih_plug_playground::audio_engine::AudioStatus;
use nih_plug_playground::build_system::{BuildMessage, BuildStatus};
use nih_plug_playground::midi_engine::MidiStatus;
use nih_plug_playground::plugin_host::loader::PluginBinary;
use nih_plug_playground::plugin_host::{HostStatus, LoadOutcome, PluginMode, TeardownStep};
use nih_plug_playground::project::Project;
use nih_plug_playground::ui::new_project_dialog::NewProjectResult;
use nih_plug_playground::ui::Color;

fn app() -> PlaygroundApp {
    PlaygroundApp::new(&None, &None, vec!["in".to_string()], vec!["out".to_string()])
}

fn project(path: &str) -> Project {
    Project::open(path.to_string(), Some("gain".to_string()), true).unwrap()
}

fn with_project() -> PlaygroundApp {
    let mut a = app();
    a.project_opened(Ok(project("/p/gain")));
    a
}

fn load(a: &mut PlaygroundApp) {
    let binary = PluginBinary {
        plugin_id: "id".to_string(),
        plugin_name: "Gain".to_string(),
        path: "/g.clap".to_string(),
    };
    assert!(a.plugin_loaded("/g.clap", LoadOutcome::Instantiated { binary, gui: None }));
}

#[test]
fn an_action_may_need_a_project() {
    let mut a = app();
    for action in [AppAction::SaveActiveFile, AppAction::SaveAllFiles, AppAction::Build] {
        assert_eq!(a.handle_action(action), AppRequest::Nothing);
    }
    let mut a = with_project();
    assert_eq!(a.handle_action(AppAction::SaveActiveFile), AppRequest::WriteActiveFile);
    assert_eq!(a.handle_action(AppAction::SaveAllFiles), AppRequest::WriteUnsavedFiles);
    assert_eq!(a.handle_action(AppAction::Build), AppRequest::WriteUnsavedFilesAndBuild);
}

#[test]
fn other_actions_need_none() {
    let mut a = app();
    assert_eq!(a.handle_action(AppAction::NewProject), AppRequest::OpenNewProjectDialog);
    assert_eq!(a.handle_action(AppAction::OpenProject), AppRequest::PickProjectFolder);
    assert_eq!(a.handle_action(AppAction::OpenAudioSettings), AppRequest::OpenAudioSettings);
    assert_eq!(a.handle_action(AppAction::OpenMidiSettings), AppRequest::OpenMidiSettings);
}

#[test]
fn audio_is_switched_on_and_off() {
    let mut a = app();
    assert_eq!(a.handle_action(AppAction::ToggleAudio), AppRequest::StartPassthrough);
    a.audio_engine.start_with_plugin_instrument(2, Ok(None));
    assert_eq!(a.handle_action(AppAction::ToggleAudio), AppRequest::DropStreams);
    assert_eq!(a.audio_engine.status, AudioStatus::Stopped);
    load(&mut a);
    assert_eq!(a.handle_action(AppAction::ToggleAudio), AppRequest::ActivatePlugin);
}

#[test]
fn midi_is_switched_on_and_off() {
    let mut a = app();
    assert_eq!(a.handle_action(AppAction::ToggleMidi), AppRequest::ConnectMidi);
    a.midi_engine.connect(false, false);
    assert_eq!(a.handle_action(AppAction::ToggleMidi), AppRequest::DropPorts);
    assert_eq!(a.midi_engine.status, MidiStatus::Disconnected);
}

#[test]
fn opening_a_project_unloads_the_plugin() {
    let mut a = app();
    load(&mut a);
    a.audio_engine.start_with_plugin_instrument(2, Ok(None));
    assert_eq!(a.project_opened(Err("gone".to_string())), vec![]);
    assert_eq!(a.error_log, vec!["gone"]);
    assert!(a.plugin_host.is_loaded());
    assert_eq!(
        a.project_opened(Ok(project("/p/gain"))),
        vec![TeardownStep::DropInstance, TeardownStep::DropEntry]
    );
    assert_eq!(a.error_log.len(), 0);
    assert_eq!(a.audio_engine.status, AudioStatus::Stopped);
    assert!(!a.plugin_host.is_loaded());
    assert_eq!(a.project.unwrap().config.path, "/p/gain");
}

#[test]
fn writing_files_may_fail() {
    let mut a = with_project();
    a.file_clicked("a.rs", &Ok("a".to_string()));
    a.file_clicked("b.rs", &Err("denied".to_string()));
    assert_eq!(a.error_log, vec!["Failed to read b.rs: denied"]);
    a.clear_errors();
    a.project.as_mut().unwrap().open_files[0].modified = true;
    a.active_file_written(Err("full".to_string()));
    assert_eq!(a.error_log, vec!["Failed to save a.rs: full"]);
    assert!(!a.files_written(&vec![Err("full".to_string())]));
    assert_eq!(a.error_log.len(), 2);
    assert!(a.files_written(&vec![Ok(())]));
    assert!(!a.project.as_ref().unwrap().open_files[0].modified);
    a.active_file_written(Ok(()));
    assert_eq!(a.error_log.len(), 2);
}

#[test]
fn nothing_is_built_before_everything_is_saved() {
    let mut a = with_project();
    a.file_clicked("a.rs", &Ok("a".to_string()));
    a.project.as_mut().unwrap().open_files[0].modified = true;
    load(&mut a);
    assert!(a.build_prepared(&vec![Err("full".to_string())]).is_none());
    assert_eq!(a.build_system.status, BuildStatus::Idle);
    assert!(a.plugin_host.is_loaded());
    let start = a.build_prepared(&vec![Ok(())]).unwrap();
    assert_eq!(start.teardown, vec![TeardownStep::DropInstance, TeardownStep::DropEntry]);
    assert!(start.reports.is_some());
    assert_eq!(a.build_system.status, BuildStatus::Building);
    assert_eq!(a.build_system.project_path, "/p/gain");
    assert!(a.needs_repaint());
    let again = a.build_prepared(&vec![]).unwrap();
    assert!(again.reports.is_none());
}

#[test]
fn a_finished_build_is_loaded_once() {
    let mut a = with_project();
    assert_eq!(a.take_finished_build(), None);
    let start = a.build_prepared(&vec![]).unwrap();
    let reports = start.reports.unwrap();
    reports.send(BuildMessage::Finished { success: true }).unwrap();
    a.build_system.poll();
    a.auto_load_after_build = false;
    assert_eq!(a.take_finished_build(), None);
    a.auto_load_after_build = true;
    assert_eq!(a.take_finished_build(), Some("/p/gain".to_string()));
    assert_eq!(a.take_finished_build(), None);
    let start = a.build_prepared(&vec![]).unwrap();
    start.reports.unwrap().send(BuildMessage::Finished { success: false }).unwrap();
    a.build_system.poll();
    assert_eq!(a.take_finished_build(), None);
}

#[test]
fn a_built_plugin_is_loaded_and_activated() {
    let mut a = with_project();
    assert!(a.bundle_found(Err("none".to_string())).is_none());
    load(&mut a);
    let start = a.bundle_found(Ok("/g.clap".to_string())).unwrap();
    assert_eq!(start.clap_path, "/g.clap");
    assert_eq!(start.teardown, vec![TeardownStep::DropInstance, TeardownStep::DropEntry]);
    assert_eq!(a.plugin_host.status, HostStatus::Unloaded);
    assert!(!a.plugin_loaded("/g.clap", LoadOutcome::NotInstantiated("e".to_string())));
    assert!(a.activate_plugin().is_none());
    assert_eq!(
        a.error_log,
        vec![
            "Failed to find .clap bundle: none",
            "Failed to load plugin: Failed to instantiate plugin: e",
            "Failed to activate plugin: Plugin must be loaded before activation"
        ]
    );
    a.clear_errors();
    load(&mut a);
    assert!(a.needs_repaint());
    a.audio_engine.selected_sample_rate_idx = 1;
    a.plugin_host.mode = PluginMode::Effect;
    let (_, config) = a.activate_plugin().unwrap();
    assert_eq!(config.sample_rate, 48000);
    assert_eq!((config.min_buffer_size, config.max_buffer_size), (256, 256));
    assert_eq!(a.plugin_activated(Err("e".to_string())), None);
    assert_eq!(
        a.error_log,
        vec!["Failed to activate plugin: Failed to activate plugin: e"]
    );
    assert_eq!(a.plugin_activated(Ok(())), Some(PluginMode::Effect));
    assert_eq!(a.plugin_host.status, HostStatus::Active);
}

#[test]
fn a_new_project_is_opened_with_its_library() {
    assert!(PlaygroundApp::handle_new_project_result(NewProjectResult::Nothing).is_none());
    assert!(PlaygroundApp::handle_new_project_result(NewProjectResult::Cancelled).is_none());
    let create = NewProjectResult::Create {
        project_name: "gain".to_string(),
        parent_dir: "/p".to_string(),
    };
    let opts = PlaygroundApp::handle_new_project_result(create).unwrap();
    assert_eq!((opts.project_name.as_str(), opts.parent_dir.as_str()), ("gain", "/p"));
    let mut a = app();
    a.project_created(Err("e".to_string()), "lib.rs", &Ok(String::new()));
    assert_eq!(a.error_log, vec!["e"]);
    assert!(a.project.is_none());
    a.project_created(Ok(project("/p/gain")), "/p/gain/src/lib.rs", &Ok("x".to_string()));
    assert_eq!(a.error_log.len(), 0);
    let p = a.project.clone().unwrap();
    assert_eq!(p.active_file().unwrap().path, "/p/gain/src/lib.rs");
    a.project_created(Ok(project("/p/gain")), "lib.rs", &Err("gone".to_string()));
    assert_eq!(a.project.unwrap().open_files.len(), 0);
    assert_eq!(a.error_log.len(), 0);
}

#[test]
fn the_keyboard_has_shortcuts() {
    assert_eq!(shortcut(true, false, true, false), Some(AppAction::SaveActiveFile));
    assert_eq!(shortcut(true, true, true, false), Some(AppAction::SaveAllFiles));
    assert_eq!(shortcut(true, true, true, true), Some(AppAction::Build));
    assert_eq!(shortcut(false, true, true, true), None);
    assert_eq!(shortcut(true, true, false, false), None);
}

#[test]
fn the_status_in_the_bar() {
    let ready = build_button(BuildStatus::Idle, true);
    assert!(ready.enabled);
    assert_eq!((ready.label, ready.color), ("▶ Build", Color::Rgb(100, 255, 100)));
    let none = build_button(BuildStatus::Idle, false);
    assert!(!none.enabled);
    assert_eq!((none.label, none.color), ("⏳ Building...", Color::Gray));
    let on = Color::Rgb(100, 220, 100);
    let err = Color::Rgb(255, 90, 90);
    let e = || "e".to_string();
    assert_eq!(plugin_pill(&HostStatus::Unloaded), ("● No Plugin", Color::DarkGray));
    assert_eq!(plugin_pill(&HostStatus::Loaded), ("● Plugin Loaded", Color::Yellow));
    assert_eq!(plugin_pill(&HostStatus::Active), ("● Plugin Active", on));
    assert_eq!(plugin_pill(&HostStatus::Processing), ("● Plugin Active", on));
    assert_eq!(plugin_pill(&HostStatus::Error(e())), ("● Plugin Err", err));
    assert_eq!(midi_pill(&MidiStatus::Disconnected), ("● MIDI Off", Color::DarkGray));
    assert_eq!(midi_pill(&MidiStatus::InputOnly), ("● MIDI In", Color::Yellow));
    assert_eq!(midi_pill(&MidiStatus::OutputOnly), ("● MIDI Out", Color::Yellow));
    assert_eq!(midi_pill(&MidiStatus::Connected), ("● MIDI On", on));
    assert_eq!(midi_pill(&MidiStatus::Error(e())), ("● MIDI Err", err));
    assert_eq!(audio_pill(&AudioStatus::Stopped), ("● Audio Off", Color::DarkGray));
    assert_eq!(audio_pill(&AudioStatus::Running), ("● Audio On", on));
    assert_eq!(audio_pill(&AudioStatus::Error(e())), ("● Audio Err", err));
    assert_eq!(audio_menu_label(&AudioStatus::Running), "⏹  Stop");
    assert_eq!(audio_menu_label(&AudioStatus::Stopped), "▶  Start");
    assert_eq!(midi_menu_label(&MidiStatus::Disconnected), "▶  Connect");
    assert_eq!(midi_menu_label(&MidiStatus::Error(e())), "⏹  Disconnect");
}

//! The playground as a whole: what each action does, and what follows what.

use crate::audio_engine::{is_device_list, AudioEngine, AudioStatus};
use crate::build_system::{
    came_in, left_unread, reports_to, BuildMessage, BuildStatus, BuildSystem,
};
use crate::midi_engine::{MidiEngine, MidiStatus};
use crate::plugin_host::audio::PluginAudioConfig;
use crate::plugin_host::midi_bridge::{joins, put, ring_size, taken, waiting, RawMidiEvent};
use crate::plugin_host::{
    HostStatus, LoadOutcome, PluginHost, PluginMode, TeardownStep, MIDI_RING_SIZE,
};
use crate::project::{
    all_good, are_unsaved, is_save_error, lemma_all_places, lemma_save_error, unsaved_before,
    Project,
};
use crate::scaffolding::ScaffoldOptions;
use crate::text::join2;
use crate::ui::file_browser::FileBrowser;
use crate::ui::midi_panel::MidiSettingsPanel;
use crate::ui::new_project_dialog::{NewProjectDialog, NewProjectResult};
use crate::ui::plugin_panel::PluginPanel;
use crate::ui::settings_panel::SettingsPanel;
use crate::ui::top_bar::{build_color_of, can_build, BuildButton};
use crate::ui::{texts, Color};
use vstd::prelude::*;

verus! {

// ── Actions ─────────────────────────────────────────────────────────────────

/// What the user can ask for.
#[derive(Debug, Clone, Copy, PartialEq, Eq, Structural)]
pub enum AppAction {
    NewProject,
    OpenProject,
    SaveActiveFile,
    SaveAllFiles,
    Build,
    OpenAudioSettings,
    ToggleAudio,
    OpenMidiSettings,
    ToggleMidi,
}

/// What an action leaves to be done outside.
#[derive(Debug, Clone, Copy, PartialEq, Eq, Structural)]
pub enum AppRequest {
    Nothing,
    /// The dialog for a new project opens.
    OpenNewProjectDialog,
    /// The user picks a folder; `project_opened` takes it over.
    PickProjectFolder,
    /// The active file is written; `active_file_written` takes it over.
    WriteActiveFile,
    /// The unsaved files are written; `files_written` takes it over.
    WriteUnsavedFiles,
    /// The same, and then a build; `build_prepared` takes it over.
    WriteUnsavedFilesAndBuild,
    /// The devices are listed, and the audio settings open.
    OpenAudioSettings,
    /// The streams that ran are dropped.
    DropStreams,
    /// The plugin is activated, from `activate_plugin` on.
    ActivatePlugin,
    /// Streams straight from input to output are started.
    StartPassthrough,
    /// The ports are listed, and the MIDI settings open.
    OpenMidiSettings,
    /// The chosen ports are opened.
    ConnectMidi,
    /// The ports that were open are dropped.
    DropPorts,
}

/// The action that the keyboard asks for, if it does. Building comes before
/// saving.
pub fn shortcut(command: bool, shift: bool, s_pressed: bool, b_pressed: bool) -> (r: Option<
    AppAction,
>)
    ensures
        r == (if command && b_pressed {
            Some(AppAction::Build)
        } else if command && s_pressed {
            if shift {
                Some(AppAction::SaveAllFiles)
            } else {
                Some(AppAction::SaveActiveFile)
            }
        } else {
            None
        }),
{
    let mut action: Option<AppAction> = None;
    if command && s_pressed {
        action =
        Some(
            if shift {
                AppAction::SaveAllFiles
            } else {
                AppAction::SaveActiveFile
            },
        );
    }
    if command && b_pressed {
        action = Some(AppAction::Build);
    }
    action
}

// ── Labels ──────────────────────────────────────────────────────────────────

/// The build button.
pub fn build_button(status: BuildStatus, has_project: bool) -> (r: BuildButton)
    ensures
        r.enabled == can_build(status, has_project),
        r.label@ == (if r.enabled {
            "▶ Build"@
        } else {
            "⏳ Building..."@
        }),
        r.color == build_color_of(r.enabled),
{
    let enabled: bool = has_project && status != BuildStatus::Building;
    BuildButton {
        enabled,
        label: if enabled {
            "▶ Build"
        } else {
            "⏳ Building..."
        },
        color: if enabled {
            Color::Rgb(100, 255, 100)
        } else {
            Color::Gray
        },
    }
}

/// The label of the audio menu's first entry.
pub fn audio_menu_label(status: &AudioStatus) -> (r: &'static str)
    ensures
        r@ == (if *status is Running {
            "⏹  Stop"@
        } else {
            "▶  Start"@
        }),
{
    match status {
        AudioStatus::Running => "⏹  Stop",
        _ => "▶  Start",
    }
}

/// The label of the MIDI menu's first entry.
pub fn midi_menu_label(status: &MidiStatus) -> (r: &'static str)
    ensures
        r@ == (if *status is Disconnected {
            "▶  Connect"@
        } else {
            "⏹  Disconnect"@
        }),
{
    match status {
        MidiStatus::Disconnected => "▶  Connect",
        _ => "⏹  Disconnect",
    }
}

/// How the plugin is shown in the bar.
pub open spec fn plugin_pill_of(status: HostStatus) -> (Seq<char>, Color) {
    match status {
        HostStatus::Unloaded => ("● No Plugin"@, Color::DarkGray),
        HostStatus::Loaded => ("● Plugin Loaded"@, Color::Yellow),
        HostStatus::Active => ("● Plugin Active"@, Color::Rgb(100, 220, 100)),
        HostStatus::Processing => ("● Plugin Active"@, Color::Rgb(100, 220, 100)),
        HostStatus::Error(_) => ("● Plugin Err"@, Color::Rgb(255, 90, 90)),
    }
}

/// How the plugin is shown in the bar.
pub fn plugin_pill(status: &HostStatus) -> (r: (&'static str, Color))
    ensures
        (r.0@, r.1) == plugin_pill_of(*status),
{
    match status {
        HostStatus::Unloaded => ("● No Plugin", Color::DarkGray),
        HostStatus::Loaded => ("● Plugin Loaded", Color::Yellow),
        HostStatus::Active => ("● Plugin Active", Color::Rgb(100, 220, 100)),
        HostStatus::Processing => ("● Plugin Active", Color::Rgb(100, 220, 100)),
        HostStatus::Error(_) => ("● Plugin Err", Color::Rgb(255, 90, 90)),
    }
}

/// How MIDI is shown in the bar.
pub open spec fn midi_pill_of(status: MidiStatus) -> (Seq<char>, Color) {
    match status {
        MidiStatus::Disconnected => ("● MIDI Off"@, Color::DarkGray),
        MidiStatus::InputOnly => ("● MIDI In"@, Color::Yellow),
        MidiStatus::OutputOnly => ("● MIDI Out"@, Color::Yellow),
        MidiStatus::Connected => ("● MIDI On"@, Color::Rgb(100, 220, 100)),
        MidiStatus::Error(_) => ("● MIDI Err"@, Color::Rgb(255, 90, 90)),
    }
}

/// How MIDI is shown in the bar.
pub fn midi_pill(status: &MidiStatus) -> (r: (&'static str, Color))
    ensures
        (r.0@, r.1) == midi_pill_of(*status),
{
    match status {
        MidiStatus::Disconnected => ("● MIDI Off", Color::DarkGray),
        MidiStatus::InputOnly => ("● MIDI In", Color::Yellow),
        MidiStatus::OutputOnly => ("● MIDI Out", Color::Yellow),
        MidiStatus::Connected => ("● MIDI On", Color::Rgb(100, 220, 100)),
        MidiStatus::Error(_) => ("● MIDI Err", Color::Rgb(255, 90, 90)),
    }
}

/// How audio is shown in the bar.
pub open spec fn audio_pill_of(status: AudioStatus) -> (Seq<char>, Color) {
    match status {
        AudioStatus::Stopped => ("● Audio Off"@, Color::DarkGray),
        AudioStatus::Running => ("● Audio On"@, Color::Rgb(100, 220, 100)),
        AudioStatus::Error(_) => ("● Audio Err"@, Color::Rgb(255, 90, 90)),
    }
}

/// How audio is shown in the bar.
pub fn audio_pill(status: &AudioStatus) -> (r: (&'static str, Color))
    ensures
        (r.0@, r.1) == audio_pill_of(*status),
{
    match status {
        AudioStatus::Stopped => ("● Audio Off", Color::DarkGray),
        AudioStatus::Running => ("● Audio On", Color::Rgb(100, 220, 100)),
        AudioStatus::Error(_) => ("● Audio Err", Color::Rgb(255, 90, 90)),
    }
}

// ── The playground ──────────────────────────────────────────────────────────

/// The playground.
pub struct PlaygroundApp {
    pub project: Option<Project>,
    pub build_system: BuildSystem,
    pub audio_engine: AudioEngine,
    pub midi_engine: MidiEngine,
    pub plugin_host: PluginHost,
    pub file_browser: FileBrowser,
    pub new_project_dialog: NewProjectDialog,
    pub settings_panel: SettingsPanel,
    pub midi_settings_panel: MidiSettingsPanel,
    pub plugin_panel: PluginPanel,
    pub error_log: Vec<String>,
    /// Whether to load the plugin after a successful build.
    pub auto_load_after_build: bool,
}

/// What a build starts with.
pub struct BuildStart {
    /// How the plugin that was loaded is taken down, before the build.
    pub teardown: Vec<TeardownStep>,
    /// Where the build reports, unless one runs already.
    pub reports: Option<std::sync::mpsc::Sender<BuildMessage>>,
}

/// What loading a plugin starts with.
pub struct LoadStart {
    /// The plugin to load.
    pub clap_path: String,
    /// How the plugin before it is taken down, before that.
    pub teardown: Vec<TeardownStep>,
}

impl PlaygroundApp {
    /// Each part is as it should be.
    pub open spec fn wf(&self) -> bool {
        &&& self.project matches Some(p) ==> p.wf()
        &&& self.audio_engine.wf()
        &&& self.midi_engine.wf()
        &&& self.plugin_host.wf()
        &&& self.file_browser.wf()
        &&& self.plugin_panel.piano.wf()
    }

    /// The log with one more line at its end.
    pub open spec fn logs(before: Seq<String>, line: Seq<char>, after: Seq<String>) -> bool {
        texts(after) == texts(before).push(line)
    }

    /// A playground without a project, over the devices and ports that were
    /// found.
    pub fn new(
        input_devices: &Option<Vec<Option<String>>>,
        output_devices: &Option<Vec<Option<String>>>,
        input_ports: Vec<String>,
        output_ports: Vec<String>,
    ) -> (r: Self)
        ensures
            r.wf(),
            r.project is None,
            r.build_system.status == BuildStatus::Idle,
            r.build_system.output_lines@.len() == 0,
            r.build_system.receiver is None,
            r.build_system.artifact_ready is None,
            r.audio_engine.status is Stopped,
            is_device_list(r.audio_engine.input_device_names@, *input_devices),
            is_device_list(r.audio_engine.output_device_names@, *output_devices),
            r.audio_engine.selected_input_idx == 0,
            r.audio_engine.selected_output_idx == 0,
            r.audio_engine.selected_sample_rate_idx == 0,
            r.audio_engine.selected_buffer_size_idx == 0,
            r.midi_engine.status is Disconnected,
            r.midi_engine.input_port_names == input_ports,
            r.midi_engine.output_port_names == output_ports,
            r.midi_engine.selected_input_idx == (if input_ports@.len() == 0 {
                None
            } else {
                Some(0usize)
            }),
            r.midi_engine.selected_output_idx == (if output_ports@.len() == 0 {
                None
            } else {
                Some(0usize)
            }),
            r.plugin_host.status is Unloaded,
            r.plugin_host.mode == PluginMode::Instrument,
            r.plugin_host.has_fresh_channel(),
            forall|path: Seq<char>| !r.file_browser.expanded(path),
            r.plugin_panel.piano_visible,
            r.plugin_panel.piano.held_notes@.len() == 0,
            r.plugin_panel.piano.hovered_note is None,
            r.plugin_panel.piano.start_note == 36,
            r.plugin_panel.piano.white_key_count == 28,
            r.plugin_panel.piano.channel == 0,
            r.plugin_panel.piano.velocity == 100,
            r.plugin_panel.piano.event_log@.len() == 0,
            !r.new_project_dialog.is_open,
            r.new_project_dialog.project_name@ == ""@,
            r.new_project_dialog.parent_dir is None,
            r.new_project_dialog.error is None,
            !r.settings_panel.is_open,
            !r.midi_settings_panel.is_open,
            r.error_log@.len() == 0,
            r.auto_load_after_build,
    {
        PlaygroundApp {
            project: None,
            build_system: BuildSystem::new(),
            audio_engine: AudioEngine::new(input_devices, output_devices),
            midi_engine: MidiEngine::new(input_ports, output_ports),
            plugin_host: PluginHost::new(),
            file_browser: FileBrowser::new(),
            new_project_dialog: NewProjectDialog::default(),
            settings_panel: SettingsPanel::default(),
            midi_settings_panel: MidiSettingsPanel::default(),
            plugin_panel: PluginPanel::default(),
            error_log: Vec::new(),
            auto_load_after_build: true,
        }
    }

    fn report(&mut self, error: String)
        ensures
            Self::logs(old(self).error_log@, error@, final(self).error_log@),
            *final(self) == (PlaygroundApp { error_log: final(self).error_log, ..*old(self) }),
    {
        let ghost text = error@;
        self.error_log.push(error);
        assert(texts(self.error_log@) =~= texts(old(self).error_log@).push(text));
    }

    /// Forgets the errors.
    pub fn clear_errors(&mut self)
        ensures
            final(self).error_log@.len() == 0,
            *final(self) == (PlaygroundApp { error_log: final(self).error_log, ..*old(self) }),
    {
        self.error_log = Vec::new();
    }

    /// What an action leaves to be done outside.
    pub open spec fn request_for(&self, action: AppAction) -> AppRequest {
        match action {
            AppAction::NewProject => AppRequest::OpenNewProjectDialog,
            AppAction::OpenProject => AppRequest::PickProjectFolder,
            AppAction::SaveActiveFile => if self.project is Some {
                AppRequest::WriteActiveFile
            } else {
                AppRequest::Nothing
            },
            AppAction::SaveAllFiles => if self.project is Some {
                AppRequest::WriteUnsavedFiles
            } else {
                AppRequest::Nothing
            },
            AppAction::Build => if self.project is Some {
                AppRequest::WriteUnsavedFilesAndBuild
            } else {
                AppRequest::Nothing
            },
            AppAction::OpenAudioSettings => AppRequest::OpenAudioSettings,
            AppAction::ToggleAudio => if self.audio_engine.status is Running {
                AppRequest::DropStreams
            } else if !(self.plugin_host.status is Unloaded) {
                AppRequest::ActivatePlugin
            } else {
                AppRequest::StartPassthrough
            },
            AppAction::OpenMidiSettings => AppRequest::OpenMidiSettings,
            AppAction::ToggleMidi => if self.midi_engine.status is Disconnected {
                AppRequest::ConnectMidi
            } else {
                AppRequest::DropPorts
            },
        }
    }

    /// Takes up an action. What stops, stops here; everything else is left to
    /// be done outside.
    pub fn handle_action(&mut self, action: AppAction) -> (r: AppRequest)
        requires
            old(self).wf(),
        ensures
            final(self).wf(),
            r == old(self).request_for(action),
            match r {
                AppRequest::DropStreams => {
                    &&& final(self).audio_engine.status is Stopped
                    &&& final(self).audio_engine.same_choices(&old(self).audio_engine)
                    &&& *final(self) == (PlaygroundApp {
                        audio_engine: final(self).audio_engine,
                        ..*old(self)
                    })
                },
                AppRequest::DropPorts => {
                    &&& final(self).midi_engine.status is Disconnected
                    &&& final(self).midi_engine.same_choices(&old(self).midi_engine)
                    &&& *final(self) == (PlaygroundApp {
                        midi_engine: final(self).midi_engine,
                        ..*old(self)
                    })
                },
                _ => *final(self) == *old(self),
            },
    {
        match action {
            AppAction::NewProject => AppRequest::OpenNewProjectDialog,
            AppAction::OpenProject => AppRequest::PickProjectFolder,
            AppAction::SaveActiveFile => if self.project.is_some() {
                AppRequest::WriteActiveFile
            } else {
                AppRequest::Nothing
            },
            AppAction::SaveAllFiles => if self.project.is_some() {
                AppRequest::WriteUnsavedFiles
            } else {
                AppRequest::Nothing
            },
            AppAction::Build => if self.project.is_some() {
                AppRequest::WriteUnsavedFilesAndBuild
            } else {
                AppRequest::Nothing
            },
            AppAction::OpenAudioSettings => AppRequest::OpenAudioSettings,
            AppAction::ToggleAudio => {
                let running: bool = matches!(self.audio_engine.status, AudioStatus::Running);
                if running {
                    self.audio_engine.stop();
                    AppRequest::DropStreams
                } else if self.plugin_host.is_loaded() {
                    AppRequest::ActivatePlugin
                } else {
                    AppRequest::StartPassthrough
                }
            },
            AppAction::OpenMidiSettings => AppRequest::OpenMidiSettings,
            AppAction::ToggleMidi => {
                let off: bool = matches!(self.midi_engine.status, MidiStatus::Disconnected);
                if off {
                    AppRequest::ConnectMidi
                } else {
                    self.midi_engine.disconnect();
                    AppRequest::DropPorts
                }
            },
        }
    }

    /// Takes over a project that the user picked. The plugin of the last one
    /// is unloaded and the audio stopped; the steps for the plugin come back.
    pub fn project_opened(&mut self, opened: Result<Project, String>) -> (r: Vec<TeardownStep>)
        requires
            old(self).wf(),
            opened matches Ok(p) ==> p.wf(),
        ensures
            final(self).wf(),
            match opened {
                Ok(project) => {
                    &&& r@ == old(self).plugin_host.unloading_steps()
                    &&& final(self).project == Some(project)
                    &&& final(self).plugin_host.status is Unloaded
                    &&& final(self).plugin_host.mode == old(self).plugin_host.mode
                    &&& final(self).plugin_host.main_thread_tx == old(
                        self).plugin_host.main_thread_tx
                    &&& final(self).plugin_host.main_thread_rx == old(
                        self).plugin_host.main_thread_rx
                    &&& final(self).audio_engine.status is Stopped
                    &&& final(self).audio_engine.same_choices(&old(self).audio_engine)
                    &&& final(self).error_log@.len() == 0
                    &&& *final(self) == (PlaygroundApp {
                        project: final(self).project,
                        plugin_host: final(self).plugin_host,
                        audio_engine: final(self).audio_engine,
                        error_log: final(self).error_log,
                        ..*old(self)
                    })
                },
                Err(e) => {
                    &&& r@.len() == 0
                    &&& Self::logs(old(self).error_log@, e@, final(self).error_log@)
                    &&& *final(self) == (PlaygroundApp {
                        error_log: final(self).error_log,
                        ..*old(self)
                    })
                },
            },
    {
        match opened {
            Ok(project) => {
                let steps: Vec<TeardownStep> = self.plugin_host.unload();
                self.audio_engine.stop();
                self.project = Some(project);
                self.clear_errors();
                steps
            },
            Err(e) => {
                self.report(e);
                Vec::new()
            },
        }
    }

    /// Takes over the outcome of writing the active file.
    pub fn active_file_written(&mut self, written: Result<(), String>)
        requires
            old(self).wf(),
        ensures
            final(self).wf(),
            *final(self) == (PlaygroundApp {
                project: final(self).project,
                error_log: final(self).error_log,
                ..*old(self)
            }),
            match old(self).project {
                None => *final(self) == *old(self),
                Some(before) => {
                    &&& final(self).project matches Some(after)
                    &&& after.config == before.config
                    &&& after.active_file_index == before.active_file_index
                    &&& match (before.active_file_index, written) {
                        (Some(i), Ok(_)) => {
                            &&& after.open_files@ == before.open_files@.update(
                                i as int,
                                crate::project::OpenFile {
                                    modified: false,
                                    ..before.open_files@[i as int]
                                },
                            )
                            &&& final(self).error_log == old(self).error_log
                        },
                        (Some(i), Err(e)) => {
                            &&& after.open_files == before.open_files
                            &&& Self::logs(
                                old(self).error_log@,
                                "Failed to save "@ + before.open_files@[i as int].path@ + ": "@
                                    + e@,
                                final(self).error_log@,
                            )
                        },
                        (None, _) => {
                            &&& after.open_files == before.open_files
                            &&& final(self).error_log == old(self).error_log
                        },
                    }
                },
            },
    {
        match self.project.take() {
            Some(p) => {
                let mut project: Project = p;
                let saved: Result<(), String> = project.save_active_file(written);
                self.project = Some(project);
                match saved {
                    Ok(_) => {},
                    Err(e) => self.report(e),
                }
            },
            None => {},
        }
    }

    /// Whether enough is known of writing the unsaved files: every outcome,
    /// or those up to the first failure.
    pub open spec fn tells_all(&self, outcomes: Seq<Result<(), String>>) -> bool {
        self.project matches Some(p) ==> outcomes.len() >= unsaved_before(
            p.open_files@,
            p.open_files@.len() as int,
        ) || (outcomes.len() > 0 && outcomes.last() is Err)
    }

    /// Whether every unsaved file was written.
    pub open spec fn wrote_all(&self, outcomes: Seq<Result<(), String>>) -> bool {
        self.project matches Some(p) && all_good(
            outcomes,
            unsaved_before(p.open_files@, p.open_files@.len() as int),
        )
    }

    /// Takes over the outcomes of writing the unsaved files, as
    /// `Project::save_all_files` does. Returns whether all of them were
    /// written; an error is logged where one was not.
    pub fn files_written(&mut self, outcomes: &Vec<Result<(), String>>) -> (r: bool)
        requires
            old(self).wf(),
            old(self).tells_all(outcomes@),
        ensures
            final(self).wf(),
            r == old(self).wrote_all(outcomes@),
            *final(self) == (PlaygroundApp {
                project: final(self).project,
                error_log: final(self).error_log,
                ..*old(self)
            }),
            match old(self).project {
                None => *final(self) == *old(self),
                Some(before) => {
                    &&& final(self).project matches Some(after)
                    &&& Project::is_saved(before, outcomes@, after)
                    &&& r ==> final(self).error_log == old(self).error_log
                    &&& !r ==> exists|text: Seq<char>|
                        {
                            &&& #[trigger] is_save_error(before.open_files@, outcomes@, text)
                            &&& Self::logs(old(self).error_log@, text, final(self).error_log@)
                        }
                },
            },
    {
        match self.project.take() {
            Some(p) => {
                let mut project: Project = p;
                let ghost before = project;
                let saved: Result<(), String> = project.save_all_files(outcomes);
                self.project = Some(project);
                match saved {
                    Ok(_) => true,
                    Err(e) => {
                        proof {
                            lemma_save_error(before.open_files@, outcomes@, e@);
                        }
                        self.report(e);
                        false
                    },
                }
            },
            None => false,
        }
    }

    /// Takes over the outcomes of writing the unsaved files before a build.
    /// If all were written, the plugin is unloaded, the audio stopped and the
    /// build started; else nothing is built.
    pub fn build_prepared(&mut self, outcomes: &Vec<Result<(), String>>) -> (r: Option<BuildStart>)
        requires
            old(self).wf(),
            old(self).tells_all(outcomes@),
        ensures
            final(self).wf(),
            r is Some <==> old(self).wrote_all(outcomes@),
            match old(self).project {
                Some(before) => final(self).project matches Some(after) && Project::is_saved(
                    before,
                    outcomes@,
                    after,
                ),
                None => *final(self) == *old(self),
            },
            *final(self) == (PlaygroundApp {
                project: final(self).project,
                build_system: final(self).build_system,
                audio_engine: final(self).audio_engine,
                plugin_host: final(self).plugin_host,
                error_log: final(self).error_log,
                ..*old(self)
            }),
            match r {
                Some(start) => {
                    &&& start.teardown@ == old(self).plugin_host.unloading_steps()
                    &&& final(self).plugin_host.status is Unloaded
                    &&& final(self).plugin_host.mode == old(self).plugin_host.mode
                    &&& final(self).plugin_host.main_thread_tx == old(
                        self).plugin_host.main_thread_tx
                    &&& final(self).plugin_host.main_thread_rx == old(
                        self).plugin_host.main_thread_rx
                    &&& final(self).audio_engine.status is Stopped
                    &&& final(self).audio_engine.same_choices(&old(self).audio_engine)
                    &&& final(self).error_log == old(self).error_log
                    &&& if old(self).build_system.status == BuildStatus::Building {
                        start.reports is None && final(self).build_system == old(
                            self).build_system
                    } else {
                        &&& start.reports matches Some(sender)
                        &&& final(self).build_system.receiver matches Some(receiver)
                        &&& reports_to(sender, receiver)
                        &&& came_in(receiver) == Seq::<BuildMessage>::empty()
                        &&& left_unread(receiver) == Seq::<BuildMessage>::empty()
                        &&& final(self).build_system.status == BuildStatus::Building
                        &&& final(self).build_system.project_path@ == (
                        old(self).project->0).config.path@
                        &&& final(self).build_system.artifact_ready is None
                        &&& final(self).build_system.output_lines@.len() == 1
                        &&& final(self).build_system.output_lines@[0].text@
                            == "Bundling plugin at "@ + (old(self).project->0).config.path@ + "..."@
                        &&& !final(self).build_system.output_lines@[0].is_error
                    }
                },
                None => {
                    &&& final(self).plugin_host == old(self).plugin_host
                    &&& final(self).audio_engine == old(self).audio_engine
                    &&& final(self).build_system == old(self).build_system
                    &&& old(self).project matches Some(before) ==> exists|text: Seq<char>|
                        {
                            &&& #[trigger] is_save_error(before.open_files@, outcomes@, text)
                            &&& Self::logs(old(self).error_log@, text, final(self).error_log@)
                        }
                },
            },
    {
        if !self.files_written(outcomes) {
            return None;
        }
        let path: String = match &self.project {
            Some(p) => p.config.path.clone(),
            None => {
                return None;
            },
        };
        let teardown: Vec<TeardownStep> = self.plugin_host.unload();
        self.audio_engine.stop();
        let reports: Option<std::sync::mpsc::Sender<BuildMessage>> = self.build_system.start_build(
            path.as_str(),
        );
        Some(BuildStart { teardown, reports })
    }

    /// What the dialog for a new project leaves to be done: the project to
    /// make, if there is one.
    pub fn handle_new_project_result(result: NewProjectResult) -> (r: Option<ScaffoldOptions>)
        ensures
            match result {
                NewProjectResult::Create { project_name, parent_dir } => r matches Some(opts)
                    && opts.project_name == project_name && opts.parent_dir == parent_dir,
                _ => r is None,
            },
    {
        match result {
            NewProjectResult::Create { project_name, parent_dir } => Some(
                ScaffoldOptions { parent_dir, project_name },
            ),
            _ => None,
        }
    }

    /// Takes over a new project: it is opened with its `lib.rs`, where that
    /// can be read.
    pub fn project_created(
        &mut self,
        created: Result<Project, String>,
        lib_path: &str,
        lib_text: &Result<String, String>,
    )
        requires
            old(self).wf(),
            created matches Ok(p) ==> p.wf() && p.open_files@.len() == 0 && p.active_file_index
                is None,
        ensures
            final(self).wf(),
            *final(self) == (PlaygroundApp {
                project: final(self).project,
                error_log: final(self).error_log,
                ..*old(self)
            }),
            match created {
                Ok(project) => {
                    &&& final(self).error_log@.len() == 0
                    &&& final(self).project matches Some(now)
                    &&& now.config == project.config
                    &&& match *lib_text {
                        Ok(text) => {
                            &&& now.open_files@.len() == 1
                            &&& now.open_files@[0].path@ == lib_path@
                            &&& now.open_files@[0].content@ == text@
                            &&& !now.open_files@[0].modified
                            &&& now.active_file_index == Some(0usize)
                        },
                        Err(_) => now.open_files@.len() == 0 && now.active_file_index is None,
                    }
                },
                Err(e) => {
                    &&& final(self).project == old(self).project
                    &&& Self::logs(old(self).error_log@, e@, final(self).error_log@)
                },
            },
    {
        match created {
            Ok(p) => {
                let mut project: Project = p;
                let _ = project.open_file(lib_path, lib_text);
                self.project = Some(project);
                self.clear_errors();
            },
            Err(e) => self.report(e),
        }
    }

    /// Takes over a file that the user clicked on in the browser.
    pub fn file_clicked(&mut self, path: &str, read: &Result<String, String>)
        requires
            old(self).wf(),
        ensures
            final(self).wf(),
            *final(self) == (PlaygroundApp {
                project: final(self).project,
                error_log: final(self).error_log,
                ..*old(self)
            }),
            match old(self).project {
                None => *final(self) == *old(self),
                Some(before) => {
                    &&& final(self).project matches Some(after)
                    &&& after.config == before.config
                    &&& if crate::project::has_no_path(before.open_files@, path@) {
                        match *read {
                            Ok(content) => {
                                &&& after.open_files@.len() == before.open_files@.len() + 1
                                &&& after.open_files@.drop_last() == before.open_files@
                                &&& after.open_files@.last().path@ == path@
                                &&& after.open_files@.last().content@ == content@
                                &&& !after.open_files@.last().modified
                                &&& after.active_file_index == Some(
                                    before.open_files@.len() as usize,
                                )
                                &&& final(self).error_log == old(self).error_log
                            },
                            Err(e) => {
                                &&& after == before
                                &&& Self::logs(
                                    old(self).error_log@,
                                    "Failed to read "@ + path@ + ": "@ + e@,
                                    final(self).error_log@,
                                )
                            },
                        }
                    } else {
                        &&& after.open_files == before.open_files
                        &&& after.active_file_index matches Some(i)
                        &&& crate::project::is_first_with_path(
                            before.open_files@,
                            path@,
                            i as int,
                        )
                        &&& final(self).error_log == old(self).error_log
                    }
                },
            },
    {
        match self.project.take() {
            Some(p) => {
                let mut project: Project = p;
                let opened: Result<(), String> = project.open_file(path, read);
                self.project = Some(project);
                match opened {
                    Ok(_) => {},
                    Err(e) => self.report(e),
                }
            },
            None => {},
        }
    }

    // ── After a build ───────────────────────────────────────────────────────

    /// Whether a build has succeeded that is to be loaded and was not yet.
    pub open spec fn load_is_due(&self) -> bool {
        &&& self.build_system.status == BuildStatus::Success
        &&& self.auto_load_after_build
        &&& self.build_system.artifact_ready is Some
    }

    /// Whether to load the plugin now; a build is loaded once. Returns the
    /// project to look in, where there is one.
    pub fn take_finished_build(&mut self) -> (r: Option<String>)
        requires
            old(self).wf(),
        ensures
            final(self).wf(),
            if old(self).load_is_due() {
                &&& !final(self).load_is_due()
                &&& final(self).build_system.artifact_ready is None
                &&& match old(self).project {
                    Some(p) => r matches Some(path) && path@ == p.config.path@,
                    None => r is None,
                }
                &&& *final(self) == (PlaygroundApp {
                    build_system: BuildSystem {
                        artifact_ready: None,
                        ..old(self).build_system
                    },
                    ..*old(self)
                })
            } else {
                r is None && *final(self) == *old(self)
            },
    {
        if self.build_system.status == BuildStatus::Success && self.auto_load_after_build
            && self.build_system.artifact_ready.is_some() {
            let _ = self.build_system.take_artifact();
            match &self.project {
                Some(p) => Some(p.config.path.clone()),
                None => None,
            }
        } else {
            None
        }
    }

    /// Takes over the search for the built plugin. If there is one to load,
    /// the plugin before it is unloaded.
    pub fn bundle_found(&mut self, found: Result<String, String>) -> (r: Option<LoadStart>)
        requires
            old(self).wf(),
        ensures
            final(self).wf(),
            match found {
                Ok(path) => {
                    &&& r matches Some(start)
                    &&& start.clap_path == path
                    &&& start.teardown@ == old(self).plugin_host.unloading_steps()
                    &&& final(self).plugin_host.status is Unloaded
                    &&& final(self).plugin_host.mode == old(self).plugin_host.mode
                    &&& final(self).plugin_host.main_thread_tx == old(
                        self).plugin_host.main_thread_tx
                    &&& final(self).plugin_host.main_thread_rx == old(
                        self).plugin_host.main_thread_rx
                    &&& *final(self) == (PlaygroundApp {
                        plugin_host: final(self).plugin_host,
                        ..*old(self)
                    })
                },
                Err(e) => {
                    &&& r is None
                    &&& Self::logs(
                        old(self).error_log@,
                        "Failed to find .clap bundle: "@ + e@,
                        final(self).error_log@,
                    )
                    &&& *final(self) == (PlaygroundApp {
                        error_log: final(self).error_log,
                        ..*old(self)
                    })
                },
            },
    {
        match found {
            Ok(clap_path) => {
                let teardown: Vec<TeardownStep> = self.plugin_host.unload();
                Some(LoadStart { clap_path, teardown })
            },
            Err(e) => {
                self.report(join2("Failed to find .clap bundle: ", e.as_str()));
                None
            },
        }
    }

    /// Takes over the outcome of loading the built plugin. Returns whether it
    /// is to be activated.
    pub fn plugin_loaded(&mut self, clap_path: &str, outcome: LoadOutcome) -> (r: bool)
        requires
            old(self).wf(),
            old(self).plugin_host.status is Unloaded,
        ensures
            final(self).wf(),
            r == (outcome is Instantiated),
            r ==> {
                &&& final(self).plugin_host.status is Loaded
                &&& final(self).plugin_host.loaded_path matches Some(p)
                &&& p@ == clap_path@
                &&& final(self).plugin_host.plugin_name == Some(
                    outcome->Instantiated_binary.plugin_name,
                )
                &&& final(self).plugin_host.plugin_id == Some(
                    outcome->Instantiated_binary.plugin_id,
                )
                &&& final(self).plugin_host.gui == outcome->Instantiated_gui
                &&& !final(self).plugin_host.gui_open
                &&& final(self).plugin_host.gui_window is None
                &&& final(self).plugin_host.midi_producer is None
                &&& final(self).plugin_host.mode == old(self).plugin_host.mode
                &&& final(self).plugin_host.main_thread_tx == old(self).plugin_host.main_thread_tx
                &&& final(self).plugin_host.main_thread_rx == old(self).plugin_host.main_thread_rx
                &&& *final(self) == (PlaygroundApp {
                    plugin_host: final(self).plugin_host,
                    ..*old(self)
                })
            },
            !r ==> {
                &&& Self::logs(
                    old(self).error_log@,
                    "Failed to load plugin: "@ + load_error_of(outcome),
                    final(self).error_log@,
                )
                &&& *final(self) == (PlaygroundApp {
                    error_log: final(self).error_log,
                    ..*old(self)
                })
            },
    {
        match self.plugin_host.load(clap_path, outcome) {
            Ok(_) => true,
            Err(e) => {
                self.report(join2("Failed to load plugin: ", e.as_str()));
                false
            },
        }
    }

    /// Starts to activate the loaded plugin, with the chosen rate and buffer.
    pub fn activate_plugin(&mut self) -> (r: Option<
        (rtrb::Consumer<RawMidiEvent>, PluginAudioConfig),
    >)
        requires
            old(self).wf(),
        ensures
            final(self).wf(),
            if old(self).plugin_host.status is Loaded || old(self).plugin_host.status is Active {
                &&& r matches Some((consumer, config))
                &&& taken(consumer) == Seq::<RawMidiEvent>::empty()
                &&& waiting(consumer) == Seq::<RawMidiEvent>::empty()
                &&& config == (PluginAudioConfig {
                    sample_rate: old(self).audio_engine.rate(),
                    min_buffer_size: old(self).audio_engine.frames(),
                    max_buffer_size: old(self).audio_engine.frames(),
                    mode: old(self).plugin_host.mode,
                })
                &&& final(self).plugin_host.midi_producer matches Some(producer)
                &&& joins(producer, consumer)
                &&& put(producer) == Seq::<RawMidiEvent>::empty()
                &&& ring_size(producer) == MIDI_RING_SIZE
                &&& final(self).plugin_host == (PluginHost {
                    midi_producer: final(self).plugin_host.midi_producer,
                    ..old(self).plugin_host
                })
                &&& final(self).error_log == old(self).error_log
            } else {
                &&& r is None
                &&& Self::logs(
                    old(self).error_log@,
                    "Failed to activate plugin: "@ + "Plugin must be loaded before activation"@,
                    final(self).error_log@,
                )
                &&& final(self).plugin_host == old(self).plugin_host
            },
            *final(self) == (PlaygroundApp {
                plugin_host: final(self).plugin_host,
                error_log: final(self).error_log,
                ..*old(self)
            }),
    {
        let rate: u32 = self.audio_engine.current_sample_rate();
        let (least, most): (u32, u32) = self.audio_engine.current_buffer_size();
        match self.plugin_host.activate(rate, least, most) {
            Ok(ready) => Some(ready),
            Err(e) => {
                self.report(join2("Failed to activate plugin: ", e.as_str()));
                None
            },
        }
    }

    /// Takes over the outcome of activating the plugin. Returns how its audio
    /// is to be started, if it is.
    pub fn plugin_activated(&mut self, outcome: Result<(), String>) -> (r: Option<PluginMode>)
        requires
            old(self).wf(),
            old(self).plugin_host.status is Loaded || old(self).plugin_host.status is Active,
        ensures
            final(self).wf(),
            match outcome {
                Ok(_) => {
                    &&& r == Some(old(self).plugin_host.mode)
                    &&& final(self).plugin_host.status is Active
                    &&& final(self).error_log == old(self).error_log
                },
                Err(e) => {
                    &&& r is None
                    &&& final(self).plugin_host.status == old(self).plugin_host.status
                    &&& Self::logs(
                        old(self).error_log@,
                        "Failed to activate plugin: "@ + ("Failed to activate plugin: "@ + e@),
                        final(self).error_log@,
                    )
                },
            },
            final(self).plugin_host == (PluginHost {
                status: final(self).plugin_host.status,
                ..old(self).plugin_host
            }),
            *final(self) == (PlaygroundApp {
                plugin_host: final(self).plugin_host,
                error_log: final(self).error_log,
                ..*old(self)
            }),
    {
        match self.plugin_host.activation_finished(outcome) {
            Ok(_) => Some(self.plugin_host.mode),
            Err(e) => {
                self.report(join2("Failed to activate plugin: ", e.as_str()));
                None
            },
        }
    }

    /// Whether the next frame should be drawn right away: while something
    /// builds, or a plugin may have something to say.
    pub fn needs_repaint(&self) -> (r: bool)
        ensures
            r == (self.build_system.status == BuildStatus::Building || !(
            self.plugin_host.status is Unloaded)),
    {
        self.build_system.status == BuildStatus::Building || self.plugin_host.is_loaded()
    }
}

/// Why a plugin could not be loaded.
pub open spec fn load_error_of(outcome: LoadOutcome) -> Seq<char> {
    match outcome {
        LoadOutcome::NoBinary(e) => e@,
        LoadOutcome::NoHostInfo(e) => "Failed to create host info: "@ + e@,
        LoadOutcome::InvalidId(e) => "Invalid plugin ID: "@ + e@,
        LoadOutcome::NotInstantiated(e) => "Failed to instantiate plugin: "@ + e@,
        LoadOutcome::Instantiated { .. } => Seq::empty(),
    }
}

/// What an action leads to: the files of an open project are written, audio
/// and MIDI are turned off where they are on and on where they are off, and a
/// loaded plugin is what audio is turned on with.
pub proof fn law_actions_lead_to_what_they_say(app: PlaygroundApp)
    ensures
        app.request_for(AppAction::NewProject) == AppRequest::OpenNewProjectDialog,
        app.request_for(AppAction::OpenProject) == AppRequest::PickProjectFolder,
        app.request_for(AppAction::OpenAudioSettings) == AppRequest::OpenAudioSettings,
        app.request_for(AppAction::OpenMidiSettings) == AppRequest::OpenMidiSettings,
        app.project is Some ==> {
            &&& app.request_for(AppAction::SaveActiveFile) == AppRequest::WriteActiveFile
            &&& app.request_for(AppAction::SaveAllFiles) == AppRequest::WriteUnsavedFiles
            &&& app.request_for(AppAction::Build) == AppRequest::WriteUnsavedFilesAndBuild
        },
        app.project is None ==> {
            &&& app.request_for(AppAction::SaveActiveFile) == AppRequest::Nothing
            &&& app.request_for(AppAction::SaveAllFiles) == AppRequest::Nothing
            &&& app.request_for(AppAction::Build) == AppRequest::Nothing
        },
        app.audio_engine.status is Running ==> app.request_for(AppAction::ToggleAudio)
            == AppRequest::DropStreams,
        !(app.audio_engine.status is Running) && app.plugin_host.status is Unloaded
            ==> app.request_for(AppAction::ToggleAudio) == AppRequest::StartPassthrough,
        !(app.audio_engine.status is Running) && !(app.plugin_host.status is Unloaded)
            ==> app.request_for(AppAction::ToggleAudio) == AppRequest::ActivatePlugin,
        app.midi_engine.status is Disconnected ==> app.request_for(AppAction::ToggleMidi)
            == AppRequest::ConnectMidi,
        !(app.midi_engine.status is Disconnected) ==> app.request_for(AppAction::ToggleMidi)
            == AppRequest::DropPorts,
{
}

/// A plugin is loaded once its build has succeeded, if that is wanted, and
/// once for each build.
pub proof fn law_finished_builds_are_loaded_once(app: PlaygroundApp)
    ensures
        app.load_is_due() <==> app.build_system.status == BuildStatus::Success
            && app.auto_load_after_build && app.build_system.artifact_ready is Some,
{
}

/// Writing the unsaved files has succeeded exactly where a project is open and
/// each of its unsaved files was written.
pub proof fn law_all_files_are_written(
    app: PlaygroundApp,
    outcomes: Seq<Result<(), String>>,
    places: Seq<int>,
)
    requires
        app.project matches Some(p) ==> are_unsaved(p.open_files@, places),
    ensures
        app.wrote_all(outcomes) <==> app.project is Some && forall|k: int|
            0 <= k < places.len() ==> #[trigger] outcomes[k] is Ok,
{
    match app.project {
        Some(p) => {
            lemma_all_places(p.open_files@, places);
        },
        None => {},
    }
}

/// An error is added behind those that are shown.
pub proof fn law_errors_are_added_behind(before: Seq<String>, line: Seq<char>, after: Seq<String>)
    requires
        PlaygroundApp::logs(before, line, after),
    ensures
        after.len() == before.len() + 1,
        after.last()@ == line,
        forall|i: int| 0 <= i < before.len() ==> (#[trigger] after[i])@ == before[i]@,
{
    let shown = texts(after);
    assert(shown.len() == after.len());
    assert(shown.last() == after.last()@);
    assert forall|i: int| 0 <= i < before.len() implies (#[trigger] after[i])@ == before[i]@ by {
        assert(shown[i] == after[i]@);
        assert(texts(before)[i] == before[i]@);
    }
}

/// The reason why a plugin could not be loaded says what failed.
pub proof fn law_load_errors_say_what_failed(reason: String)
    ensures
        load_error_of(LoadOutcome::NoBinary(reason)) == reason@,
        load_error_of(LoadOutcome::NoHostInfo(reason)) == "Failed to create host info: "@ + reason@,
        load_error_of(LoadOutcome::InvalidId(reason)) == "Invalid plugin ID: "@ + reason@,
        load_error_of(LoadOutcome::NotInstantiated(reason)) == "Failed to instantiate plugin: "@
            + reason@,
{
}

} // verus!

//! The panel with the plugin's controls and the piano.

use crate::midi_engine::{law_note_bytes, note_off_message, note_on_message, MidiEngine};
use crate::plugin_host::{HostStatus, PluginHost, PluginMode};
use crate::text::join2;
use crate::ui::midi_panel::{PianoMessage, PianoWidget};
use crate::ui::Color;
use vstd::prelude::*;

verus! {

/// The panel with the plugin's controls and the piano.
#[derive(Debug, Clone)]
pub struct PluginPanel {
    pub piano: PianoWidget,
    pub piano_visible: bool,
}

impl Default for PluginPanel {
    /// The panel with the piano shown.
    fn default() -> (r: Self)
        ensures
            r.piano_visible,
            r.piano.wf(),
            r.piano.held_notes@.len() == 0,
            r.piano.hovered_note is None,
            r.piano.start_note == 36,
            r.piano.white_key_count == 28,
            r.piano.channel == 0,
            r.piano.velocity == 100,
            r.piano.event_log@.len() == 0,
    {
        PluginPanel { piano: PianoWidget::default(), piano_visible: true }
    }
}

/// What the user asked for in the panel.
#[derive(Debug, Clone, Copy, PartialEq, Eq, Structural)]
pub enum PluginPanelRequest {
    OpenGui,
    CloseGui,
    Unload,
}

/// How the plugin's status is shown.
pub open spec fn host_banner_of(status: HostStatus) -> (Seq<char>, Color) {
    match status {
        HostStatus::Unloaded => ("● No plugin loaded"@, Color::Gray),
        HostStatus::Loaded => ("● Loaded (inactive)"@, Color::Yellow),
        HostStatus::Active => ("● Active"@, Color::Rgb(100, 220, 100)),
        HostStatus::Processing => ("● Processing"@, Color::Rgb(100, 255, 100)),
        HostStatus::Error(_) => ("● Error"@, Color::Red),
    }
}

/// How the plugin's status is shown.
pub fn host_banner(status: &HostStatus) -> (r: (&'static str, Color))
    ensures
        (r.0@, r.1) == host_banner_of(*status),
{
    match status {
        HostStatus::Unloaded => ("● No plugin loaded", Color::Gray),
        HostStatus::Loaded => ("● Loaded (inactive)", Color::Yellow),
        HostStatus::Active => ("● Active", Color::Rgb(100, 220, 100)),
        HostStatus::Processing => ("● Processing", Color::Rgb(100, 255, 100)),
        HostStatus::Error(_) => ("● Error", Color::Red),
    }
}

/// What goes above the status: the reason of an error.
pub fn host_error(status: &HostStatus) -> (r: Option<String>)
    ensures
        match *status {
            HostStatus::Error(e) => r matches Some(line) && line@ == "Error: "@ + e@,
            _ => r is None,
        },
{
    match status {
        HostStatus::Error(e) => Some(join2("Error: ", e.as_str())),
        _ => None,
    }
}

/// The line that names the plugin.
pub fn plugin_line(name: &Option<String>) -> (r: Option<String>)
    ensures
        match *name {
            Some(n) => r matches Some(line) && line@ == "Plugin: "@ + n@,
            None => r is None,
        },
{
    match name {
        Some(n) => Some(join2("Plugin: ", n.as_str())),
        None => None,
    }
}

/// The label of a mode.
pub fn mode_label(mode: PluginMode) -> (r: &'static str)
    ensures
        r@ == (match mode {
            PluginMode::Instrument => "🎹 Instrument"@,
            PluginMode::Effect => "🎛 Effect"@,
        }),
{
    match mode {
        PluginMode::Instrument => "🎹 Instrument",
        PluginMode::Effect => "🎛 Effect",
    }
}

/// The button for the plugin's interface, and what it asks for; there is one
/// only while a plugin is loaded.
pub fn gui_button(host: &PluginHost) -> (r: Option<(&'static str, PluginPanelRequest)>)
    ensures
        if host.status is Unloaded {
            r is None
        } else if host.gui_open {
            r matches Some((label, request)) && label@ == "Close GUI"@ && request
                == PluginPanelRequest::CloseGui
        } else {
            r matches Some((label, request)) && label@ == "Open GUI"@ && request
                == PluginPanelRequest::OpenGui
        },
{
    if !host.is_loaded() {
        None
    } else if host.is_gui_open() {
        Some(("Close GUI", PluginPanelRequest::CloseGui))
    } else {
        Some(("Open GUI", PluginPanelRequest::OpenGui))
    }
}

/// Where MIDI goes, as it is shown.
pub fn routing_line(host: &PluginHost) -> (r: (&'static str, Color))
    ensures
        (r.0@, r.1) == (if host.status is Unloaded {
            ("MIDI → Direct Output"@, Color::Gray)
        } else {
            ("MIDI → Plugin"@, Color::Rgb(180, 180, 255))
        }),
{
    if host.is_loaded() {
        ("MIDI → Plugin", Color::Rgb(180, 180, 255))
    } else {
        ("MIDI → Direct Output", Color::Gray)
    }
}

/// What the user did in the panel in a frame.
#[derive(Debug, Clone, Copy, PartialEq, Eq)]
pub struct PluginPanelInput {
    /// The mode that is chosen.
    pub mode: PluginMode,
    /// The button for the plugin's interface was clicked.
    pub gui_clicked: bool,
    pub unload_clicked: bool,
    /// The piano's heading was clicked.
    pub piano_clicked: bool,
}

/// What the buttons of the panel ask for, in order. They are there only while
/// a plugin is loaded.
pub open spec fn panel_requests(host: PluginHost, input: PluginPanelInput) -> Seq<
    PluginPanelRequest,
> {
    if host.status is Unloaded {
        Seq::empty()
    } else {
        (if !input.gui_clicked {
            Seq::empty()
        } else if host.gui_open {
            seq![PluginPanelRequest::CloseGui]
        } else {
            seq![PluginPanelRequest::OpenGui]
        }) + (if input.unload_clicked {
            seq![PluginPanelRequest::Unload]
        } else {
            Seq::empty()
        })
    }
}

/// Sends a message of the piano: out of the open port, always, and to the
/// plugin as well while one is loaded. Returns the bytes for the port, if it
/// is open.
pub fn deliver(host: &mut PluginHost, engine: &MidiEngine, message: &PianoMessage) -> (r: Option<
    Vec<u8>,
>)
    ensures
        match r {
            Some(bytes) => engine.output_open && bytes@ == piano_bytes(*message),
            None => !engine.output_open,
        },
        if old(host).status is Unloaded {
            *final(host) == *old(host)
        } else {
            PluginHost::midi_sent(*old(host), piano_bytes(*message), *final(host))
        },
{
    if host.is_loaded() {
        match message {
            PianoMessage::NoteOn { channel, note, velocity } => host.send_note_on(
                *channel,
                *note,
                *velocity,
            ),
            PianoMessage::NoteOff { channel, note } => host.send_note_off(*channel, *note),
        }
    }
    match message {
        PianoMessage::NoteOn { channel, note, velocity } => engine.send_note_on(
            *channel,
            *note,
            *velocity,
        ),
        PianoMessage::NoteOff { channel, note } => engine.send_note_off(*channel, *note),
    }
}

/// The bytes of a message of the piano.
pub open spec fn piano_bytes(message: PianoMessage) -> Seq<u8> {
    match message {
        PianoMessage::NoteOn { channel, note, velocity } => note_on_message(
            channel,
            note,
            velocity,
        ),
        PianoMessage::NoteOff { channel, note } => note_off_message(channel, note),
    }
}

impl PluginPanel {
    /// Ends a frame of the panel: the mode is taken over, and the piano shown
    /// or hidden. Returns what the buttons ask for, in order.
    pub fn show(&mut self, host: &mut PluginHost, input: &PluginPanelInput) -> (r: Vec<
        PluginPanelRequest,
    >)
        ensures
            r@ == panel_requests(*old(host), *input),
            *final(host) == (PluginHost { mode: input.mode, ..*old(host) }),
            *final(self) == (PluginPanel {
                piano_visible: old(self).piano_visible != input.piano_clicked,
                ..*old(self)
            }),
    {
        host.mode = input.mode;
        let mut requests: Vec<PluginPanelRequest> = Vec::new();
        if host.is_loaded() {
            if input.gui_clicked {
                if host.is_gui_open() {
                    requests.push(PluginPanelRequest::CloseGui);
                } else {
                    requests.push(PluginPanelRequest::OpenGui);
                }
            }
            if input.unload_clicked {
                requests.push(PluginPanelRequest::Unload);
            }
        }
        if input.piano_clicked {
            self.toggle_piano();
        }
        assert(requests@ =~= panel_requests(*old(host), *input));
        requests
    }

    /// Shows the piano, or hides it.
    pub fn toggle_piano(&mut self)
        ensures
            *final(self) == (PluginPanel {
                piano_visible: !old(self).piano_visible,
                ..*old(self)
            }),
    {
        self.piano_visible = !self.piano_visible;
    }
}

/// The buttons are there only while a plugin is loaded: the first opens an
/// interface that is closed and closes one that is open, the second unloads.
pub proof fn law_buttons_act_on_a_loaded_plugin(host: PluginHost, input: PluginPanelInput)
    ensures
        host.status is Unloaded ==> panel_requests(host, input).len() == 0,
        !(host.status is Unloaded) ==> {
            &&& input.gui_clicked && !input.unload_clicked && host.gui_open ==> panel_requests(
                host,
                input,
            ) == seq![PluginPanelRequest::CloseGui]
            &&& input.gui_clicked && !input.unload_clicked && !host.gui_open ==> panel_requests(
                host,
                input,
            ) == seq![PluginPanelRequest::OpenGui]
            &&& !input.gui_clicked && input.unload_clicked ==> panel_requests(host, input) == seq![
                PluginPanelRequest::Unload,
            ]
            &&& !input.gui_clicked && !input.unload_clicked ==> panel_requests(host, input).len()
                == 0
            &&& input.gui_clicked && input.unload_clicked ==> panel_requests(host, input).len()
                == 2 && panel_requests(host, input)[1] == PluginPanelRequest::Unload
        },
{
    if !(host.status is Unloaded) {
        let requests = panel_requests(host, input);
        if input.gui_clicked && !input.unload_clicked {
            assert(requests =~= seq![
                if host.gui_open {
                    PluginPanelRequest::CloseGui
                } else {
                    PluginPanelRequest::OpenGui
                },
            ]);
        }
        if !input.gui_clicked && input.unload_clicked {
            assert(requests =~= seq![PluginPanelRequest::Unload]);
        }
    }
}

/// The piano's messages are MIDI's: a note starts with 9 and its velocity, and
/// ends with 8 and none.
pub proof fn law_piano_speaks_midi(channel: u8, note: u8, velocity: u8)
    requires
        channel < 16,
        note < 128,
        velocity < 128,
    ensures
        piano_bytes(PianoMessage::NoteOn { channel, note, velocity }) == seq![
            (0x90 + channel) as u8,
            note,
            velocity,
        ],
        piano_bytes(PianoMessage::NoteOff { channel, note }) == seq![
            (0x80 + channel) as u8,
            note,
            0u8,
        ],
{
    law_note_bytes(channel, note, velocity);
}

} // verus!

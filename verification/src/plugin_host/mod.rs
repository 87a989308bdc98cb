//! The plugin host: what is loaded, whether it runs, and what goes to it.

use crate::midi_engine::{note_off_bytes, note_on_bytes};
use crate::plugin_host::audio::PluginAudioConfig;
use crate::plugin_host::gui::{Gui, GuiConfiguration, GuiError, GuiSize};
use crate::plugin_host::gui_window::{PluginGuiWindow, WindowEvent};
use crate::plugin_host::loader::PluginBinary;
use crate::plugin_host::midi_bridge::{new_ring, push_event, RawMidiEvent};
use crate::text::{join2, owned};
use vstd::prelude::*;

pub mod audio;
pub mod gui;
pub mod gui_window;
pub mod loader;
pub mod midi_bridge;

verus! {

/// How far a plugin has come.
#[derive(Debug, Clone, PartialEq, Eq)]
pub enum HostStatus {
    Unloaded,
    Loaded,
    Active,
    Processing,
    Error(String),
}

/// Which kind of plugin audio routing to use.
#[derive(Debug, Clone, Copy, PartialEq, Eq, Structural)]
pub enum PluginMode {
    /// Synth: MIDI in, audio out (no audio input).
    Instrument,
    /// Effect: audio in and optional MIDI, audio out.
    Effect,
}

/// What a plugin asks of the thread that it was made on.
#[derive(Debug, Clone, Copy, PartialEq, Eq, Structural)]
pub enum MainThreadMessage {
    RunOnMainThread,
    GuiClosed,
    GuiRequestResized { new_size: GuiSize },
}

/// One step of taking a plugin, or its interface, down.
#[derive(Debug, Clone, Copy, PartialEq, Eq, Structural)]
pub enum TeardownStep {
    /// The plugin destroys its interface.
    DestroyPluginGui,
    /// The host's window around the interface goes.
    DropWindow,
    /// The plugin instance goes, which deactivates it where it is active.
    DropInstance,
    /// The plugin's file is let go of.
    DropEntry,
}

/// What there is to do about a message from the plugin.
#[derive(Debug, Clone, PartialEq, Eq)]
pub enum HostTask {
    Nothing,
    /// The plugin wants its callback run.
    RunCallback,
    /// The host's window gets a new size.
    ResizeWindow { width: i32, height: i32 },
    /// The interface is taken down, step by step.
    TearDown(Vec<TeardownStep>),
}

/// What there is to do to open the interface.
#[derive(Debug, Clone, PartialEq, Eq)]
pub enum GuiStep {
    /// It is open already.
    Done,
    /// The interface is created with this configuration and put into a window
    /// of the host's.
    OpenEmbedded(GuiConfiguration),
    /// After the steps in `first`, the interface is created with this
    /// configuration and shown in a window of its own.
    OpenFloating { first: Vec<TeardownStep>, configuration: GuiConfiguration },
}

/// How far embedding the interface came.
#[derive(Debug, Clone, Copy, PartialEq, Eq)]
pub enum EmbedOutcome {
    /// The plugin did not create its interface.
    NotCreated,
    /// It did, but the host could not make a window.
    NoWindow { can_resize: bool, reported: Option<GuiSize> },
    /// The plugin would not go into the host's window.
    NotAttached { can_resize: bool, reported: Option<GuiSize> },
    /// The interface is in the host's window.
    Attached { can_resize: bool, reported: Option<GuiSize>, window: PluginGuiWindow },
}

/// What loading a plugin gave.
#[derive(Debug, Clone)]
pub enum LoadOutcome {
    /// Its file could not be read.
    NoBinary(String),
    /// The host could not introduce itself.
    NoHostInfo(String),
    /// Its identifier cannot be handed to it.
    InvalidId(String),
    /// It could not be made.
    NotInstantiated(String),
    /// It was made, with an interface where it has one.
    Instantiated { binary: PluginBinary, gui: Option<Gui> },
}

// ── The channel to the main thread ──────────────────────────────────────────

/// The sending end of a `crossbeam_channel` channel.
#[verifier::external_type_specification]
#[verifier::external_body]
#[verifier::reject_recursive_types(T)]
pub struct ExSender<T>(crossbeam_channel::Sender<T>);

/// The receiving end of a `crossbeam_channel` channel.
#[verifier::external_type_specification]
#[verifier::external_body]
#[verifier::reject_recursive_types(T)]
pub struct ExReceiver<T>(crossbeam_channel::Receiver<T>);

/// Whether what goes in at this sending end comes out at this receiving end.
pub uninterp spec fn connects(
    sender: crossbeam_channel::Sender<MainThreadMessage>,
    receiver: crossbeam_channel::Receiver<MainThreadMessage>,
) -> bool;

/// All messages that this end has received so far, oldest first.
pub uninterp spec fn received(
    receiver: crossbeam_channel::Receiver<MainThreadMessage>,
) -> Seq<MainThreadMessage>;

/// The messages that were left on the channel when this end last looked.
pub uninterp spec fn unread(
    receiver: crossbeam_channel::Receiver<MainThreadMessage>,
) -> Seq<MainThreadMessage>;

/// `crossbeam_channel::unbounded`: the two ends of one new channel, through
/// which nothing has gone yet.
#[verifier::external_body]
fn new_channel() -> (r: (
    crossbeam_channel::Sender<MainThreadMessage>,
    crossbeam_channel::Receiver<MainThreadMessage>,
))
    ensures
        connects(r.0, r.1),
        received(r.1) == Seq::<MainThreadMessage>::empty(),
        unread(r.1) == Seq::<MainThreadMessage>::empty(),
{
    crossbeam_channel::unbounded()
}

/// `crossbeam_channel::Receiver::try_recv`: receives the next message, and
/// gives none only where it finds the channel empty. Which message it is, and
/// whether there is one, rests on what other threads have sent; nothing is
/// claimed of that. The end stays on its channel.
#[verifier::external_body]
fn next_message(receiver: &mut crossbeam_channel::Receiver<MainThreadMessage>) -> (r: Option<
    MainThreadMessage,
>)
    ensures
        match r {
            Some(message) => received(*final(receiver)) == received(*old(receiver)).push(message),
            None => {
                &&& received(*final(receiver)) == received(*old(receiver))
                &&& unread(*final(receiver)) == Seq::<MainThreadMessage>::empty()
            },
        },
        forall|sender: crossbeam_channel::Sender<MainThreadMessage>| #[trigger]
            connects(sender, *final(receiver)) == connects(sender, *old(receiver)),
{
    receiver.try_recv().ok()
}

// ── The host ────────────────────────────────────────────────────────────────

/// The host of one plugin.
pub struct PluginHost {
    pub status: HostStatus,
    pub plugin_name: Option<String>,
    pub plugin_id: Option<String>,
    pub mode: PluginMode,
    /// A plugin instance exists, and its file is held open.
    pub has_instance: bool,
    pub main_thread_tx: crossbeam_channel::Sender<MainThreadMessage>,
    pub main_thread_rx: crossbeam_channel::Receiver<MainThreadMessage>,
    /// Where MIDI for the plugin goes while it is active.
    pub midi_producer: Option<rtrb::Producer<RawMidiEvent>>,
    pub gui: Option<Gui>,
    pub gui_open: bool,
    /// The host's window, while the interface is embedded in it.
    pub gui_window: Option<PluginGuiWindow>,
    pub loaded_path: Option<String>,
}

/// The number of MIDI messages that can wait for the audio thread.
pub const MIDI_RING_SIZE: usize = 1024;

impl PluginHost {
    /// Nothing is loaded.
    pub open spec fn is_empty(&self) -> bool {
        &&& self.plugin_name is None
        &&& self.plugin_id is None
        &&& !self.has_instance
        &&& self.midi_producer is None
        &&& self.gui is None
        &&& !self.gui_open
        &&& self.gui_window is None
        &&& self.loaded_path is None
    }

    /// Without a plugin nothing is left of one; there is no interface without
    /// an instance; and a window of the host's stands around an interface
    /// that exists.
    pub open spec fn wf(&self) -> bool {
        &&& self.status is Unloaded ==> self.is_empty()
        &&& self.status is Loaded || self.status is Active ==> self.has_instance
        &&& self.gui is Some ==> self.has_instance
        &&& self.gui_open ==> self.gui is Some
        &&& self.gui_window is Some ==> self.gui_open && (self.gui->0).is_open
    }

    /// What the plugin sends from here on comes in at this host, and nothing
    /// was sent before.
    pub open spec fn has_fresh_channel(&self) -> bool {
        &&& connects(self.main_thread_tx, self.main_thread_rx)
        &&& received(self.main_thread_rx) == Seq::<MainThreadMessage>::empty()
        &&& unread(self.main_thread_rx) == Seq::<MainThreadMessage>::empty()
    }

    /// All but the fields that have to do with the interface.
    pub open spec fn same_plugin(&self, other: &Self) -> bool {
        &&& self.status == other.status
        &&& self.plugin_name == other.plugin_name
        &&& self.plugin_id == other.plugin_id
        &&& self.mode == other.mode
        &&& self.has_instance == other.has_instance
        &&& self.main_thread_tx == other.main_thread_tx
        &&& self.main_thread_rx == other.main_thread_rx
        &&& self.midi_producer == other.midi_producer
        &&& self.loaded_path == other.loaded_path
    }

    /// The fields that have to do with the interface.
    pub open spec fn same_gui(&self, other: &Self) -> bool {
        &&& self.gui == other.gui
        &&& self.gui_open == other.gui_open
        &&& self.gui_window == other.gui_window
    }

    /// What closing the interface takes: the plugin's part goes before the
    /// window.
    pub open spec fn closing_steps(&self) -> Seq<TeardownStep> {
        if !self.gui_open {
            Seq::empty()
        } else {
            (if (self.gui->0).is_open {
                seq![TeardownStep::DestroyPluginGui]
            } else {
                Seq::empty()
            }) + (if self.gui_window is Some {
                seq![TeardownStep::DropWindow]
            } else {
                Seq::empty()
            })
        }
    }

    /// What unloading takes: the interface, the instance, the file, in this
    /// order.
    pub open spec fn unloading_steps(&self) -> Seq<TeardownStep> {
        if self.status is Unloaded {
            Seq::empty()
        } else {
            self.closing_steps() + seq![TeardownStep::DropInstance, TeardownStep::DropEntry]
        }
    }

    /// A host with nothing loaded.
    pub fn new() -> (r: Self)
        ensures
            r.wf(),
            r.status is Unloaded,
            r.is_empty(),
            r.mode == PluginMode::Instrument,
            r.has_fresh_channel(),
    {
        let (tx, rx) = new_channel();
        PluginHost {
            status: HostStatus::Unloaded,
            plugin_name: None,
            plugin_id: None,
            mode: PluginMode::Instrument,
            has_instance: false,
            main_thread_tx: tx,
            main_thread_rx: rx,
            midi_producer: None,
            gui: None,
            gui_open: false,
            gui_window: None,
            loaded_path: None,
        }
    }

    /// Gives the next plugin a channel of its own, so that nothing that the
    /// last one sent reaches it.
    pub fn open_channel(&mut self)
        ensures
            final(self).has_fresh_channel(),
            *final(self) == (PluginHost {
                main_thread_tx: final(self).main_thread_tx,
                main_thread_rx: final(self).main_thread_rx,
                ..*old(self)
            }),
    {
        let (tx, rx) = new_channel();
        self.main_thread_tx = tx;
        self.main_thread_rx = rx;
    }

    /// Takes over the outcome of loading a plugin, once the last one is
    /// unloaded.
    pub fn load(&mut self, clap_path: &str, outcome: LoadOutcome) -> (r: Result<(), String>)
        requires
            old(self).wf(),
            old(self).status is Unloaded,
        ensures
            final(self).wf(),
            match outcome {
                LoadOutcome::NoBinary(e) => r matches Err(m) && m@ == e@,
                LoadOutcome::NoHostInfo(e) => r matches Err(m) && m@
                    == "Failed to create host info: "@ + e@,
                LoadOutcome::InvalidId(e) => r matches Err(m) && m@ == "Invalid plugin ID: "@ + e@,
                LoadOutcome::NotInstantiated(e) => r matches Err(m) && m@
                    == "Failed to instantiate plugin: "@ + e@,
                LoadOutcome::Instantiated { binary, gui } => {
                    &&& r is Ok
                    &&& final(self).status is Loaded
                    &&& final(self).plugin_name == Some(binary.plugin_name)
                    &&& final(self).plugin_id == Some(binary.plugin_id)
                    &&& final(self).loaded_path matches Some(p)
                    &&& p@ == clap_path@
                    &&& final(self).has_instance
                    &&& final(self).gui == gui
                    &&& !final(self).gui_open
                    &&& final(self).gui_window is None
                    &&& final(self).midi_producer is None
                    &&& final(self).mode == old(self).mode
                    &&& final(self).main_thread_tx == old(self).main_thread_tx
                    &&& final(self).main_thread_rx == old(self).main_thread_rx
                },
            },
            r is Err ==> *final(self) == *old(self),
    {
        match outcome {
            LoadOutcome::NoBinary(e) => Err(e),
            LoadOutcome::NoHostInfo(e) => Err(join2("Failed to create host info: ", e.as_str())),
            LoadOutcome::InvalidId(e) => Err(join2("Invalid plugin ID: ", e.as_str())),
            LoadOutcome::NotInstantiated(e) => Err(
                join2("Failed to instantiate plugin: ", e.as_str()),
            ),
            LoadOutcome::Instantiated { binary, gui } => {
                self.plugin_name = Some(binary.plugin_name);
                self.plugin_id = Some(binary.plugin_id);
                self.loaded_path = Some(owned(clap_path));
                self.has_instance = true;
                self.status = HostStatus::Loaded;
                self.gui = gui;
                Ok(())
            },
        }
    }

    /// Makes the plugin ready for the audio thread: a fresh ring for its MIDI,
    /// and what it is activated with. `activation_finished` completes it.
    pub fn activate(&mut self, sample_rate: u32, min_buffer_size: u32, max_buffer_size: u32) -> (r:
        Result<(rtrb::Consumer<RawMidiEvent>, PluginAudioConfig), String>)
        requires
            old(self).wf(),
        ensures
            final(self).wf(),
            if !(old(self).status is Loaded || old(self).status is Active) {
                &&& r matches Err(m)
                &&& m@ == "Plugin must be loaded before activation"@
                &&& *final(self) == *old(self)
            } else {
                &&& r matches Ok((consumer, config))
                &&& midi_bridge::taken(consumer) == Seq::<RawMidiEvent>::empty()
                &&& midi_bridge::waiting(consumer) == Seq::<RawMidiEvent>::empty()
                &&& config == (PluginAudioConfig {
                    sample_rate,
                    min_buffer_size,
                    max_buffer_size,
                    mode: old(self).mode,
                })
                &&& final(self).midi_producer matches Some(p)
                &&& midi_bridge::joins(p, consumer)
                &&& midi_bridge::put(p) == Seq::<RawMidiEvent>::empty()
                &&& midi_bridge::ring_size(p) == MIDI_RING_SIZE
                &&& *final(self) == (PluginHost {
                    midi_producer: final(self).midi_producer,
                    ..*old(self)
                })
            },
    {
        let ready: bool = match &self.status {
            HostStatus::Loaded => true,
            HostStatus::Active => true,
            _ => false,
        };
        if !ready {
            return Err(owned("Plugin must be loaded before activation"));
        }
        if !self.has_instance {
            return Err(owned("No plugin instance"));
        }
        let (producer, consumer) = new_ring(MIDI_RING_SIZE);
        self.midi_producer = Some(producer);
        let config = PluginAudioConfig {
            sample_rate,
            min_buffer_size,
            max_buffer_size,
            mode: self.mode,
        };
        Ok((consumer, config))
    }

    /// Takes over the outcome of activating the plugin.
    pub fn activation_finished(&mut self, outcome: Result<(), String>) -> (r: Result<(), String>)
        requires
            old(self).wf(),
            old(self).status is Loaded || old(self).status is Active,
        ensures
            final(self).wf(),
            match outcome {
                Ok(_) => r is Ok && final(self).status is Active,
                Err(e) => {
                    &&& r matches Err(m)
                    &&& m@ == "Failed to activate plugin: "@ + e@
                    &&& final(self).status == old(self).status
                },
            },
            *final(self) == (PluginHost { status: final(self).status, ..*old(self) }),
    {
        match outcome {
            Ok(_) => {
                self.status = HostStatus::Active;
                Ok(())
            },
            Err(e) => Err(join2("Failed to activate plugin: ", e.as_str())),
        }
    }

    /// Unloads the plugin completely. Returns the steps to take, in order.
    pub fn unload(&mut self) -> (r: Vec<TeardownStep>)
        requires
            old(self).wf(),
        ensures
            final(self).wf(),
            r@ == old(self).unloading_steps(),
            final(self).status is Unloaded,
            final(self).is_empty(),
            final(self).mode == old(self).mode,
            final(self).main_thread_tx == old(self).main_thread_tx,
            final(self).main_thread_rx == old(self).main_thread_rx,
    {
        let loaded: bool = self.is_loaded();
        if !loaded {
            return Vec::new();
        }
        let mut steps: Vec<TeardownStep> = self.close_gui();
        steps.push(TeardownStep::DropInstance);
        steps.push(TeardownStep::DropEntry);
        assert(steps@ =~= old(self).unloading_steps());
        self.has_instance = false;
        self.midi_producer = None;
        self.gui = None;
        self.status = HostStatus::Unloaded;
        self.plugin_name = None;
        self.plugin_id = None;
        self.loaded_path = None;
        steps
    }

    /// What becomes of the host and what there is to do when the plugin sends
    /// a message.
    pub open spec fn reacts(
        before: PluginHost,
        message: MainThreadMessage,
        after: PluginHost,
        task: HostTask,
    ) -> bool {
        match message {
            MainThreadMessage::RunOnMainThread => {
                &&& after == before
                &&& task == (if before.has_instance {
                    HostTask::RunCallback
                } else {
                    HostTask::Nothing
                })
            },
            MainThreadMessage::GuiClosed => {
                &&& !after.gui_open
                &&& after.gui_window is None
                &&& after.same_plugin(&before)
                &&& if before.gui_window is Some {
                    &&& task matches HostTask::TearDown(steps)
                    &&& steps@ == before.closing_steps()
                    &&& after.gui == Some((before.gui->0).destroyed())
                } else {
                    &&& task == HostTask::Nothing
                    &&& after.gui == before.gui
                }
            },
            MainThreadMessage::GuiRequestResized { new_size } => match before.gui_window {
                Some(window) => {
                    &&& task matches HostTask::ResizeWindow { width, height }
                    &&& width == gui_window::extent_of(window.0.system, new_size.width)
                    &&& height == gui_window::extent_of(window.0.system, new_size.height)
                    &&& after.gui_window matches Some(resized)
                    &&& resized.0 == window.0.resized(new_size.width, new_size.height)
                    &&& after == (PluginHost { gui_window: after.gui_window, ..before })
                },
                None => after == before && task == HostTask::Nothing,
            },
        }
    }

    /// Reacts to a message from the plugin. An interface in a window of its
    /// own sees to its size itself, and is gone once it says so; around an
    /// embedded one the host's window follows.
    pub fn react(&mut self, message: MainThreadMessage) -> (r: HostTask)
        requires
            old(self).wf(),
        ensures
            final(self).wf(),
            Self::reacts(*old(self), message, *final(self), r),
    {
        match message {
            MainThreadMessage::RunOnMainThread => if self.has_instance {
                HostTask::RunCallback
            } else {
                HostTask::Nothing
            },
            MainThreadMessage::GuiClosed => {
                if self.gui_window.is_some() {
                    HostTask::TearDown(self.close_gui())
                } else {
                    self.gui_open = false;
                    HostTask::Nothing
                }
            },
            MainThreadMessage::GuiRequestResized { new_size } => match self.gui_window {
                Some(window) => {
                    let mut resized: PluginGuiWindow = window;
                    let (width, height): (i32, i32) = resized.resize(
                        new_size.width,
                        new_size.height,
                    );
                    self.gui_window = Some(resized);
                    HostTask::ResizeWindow { width, height }
                },
                None => HostTask::Nothing,
            },
        }
    }

    /// Takes the next message from the plugin and reacts to it; `None` once
    /// the channel is found empty. Called every frame until then.
    pub fn poll_main_thread(&mut self) -> (r: Option<HostTask>)
        requires
            old(self).wf(),
        ensures
            final(self).wf(),
            connects(final(self).main_thread_tx, final(self).main_thread_rx) == connects(
                old(self).main_thread_tx,
                old(self).main_thread_rx,
            ),
            match r {
                Some(task) => {
                    let message = received(final(self).main_thread_rx).last();
                    &&& received(final(self).main_thread_rx) == received(
                        old(self).main_thread_rx,
                    ).push(message)
                    &&& Self::reacts(
                        PluginHost { main_thread_rx: final(self).main_thread_rx, ..*old(self) },
                        message,
                        *final(self),
                        task,
                    )
                },
                None => {
                    &&& received(final(self).main_thread_rx) == received(old(self).main_thread_rx)
                    &&& unread(final(self).main_thread_rx) == Seq::<MainThreadMessage>::empty()
                    &&& *final(self) == (PluginHost {
                        main_thread_rx: final(self).main_thread_rx,
                        ..*old(self)
                    })
                },
            },
    {
        match next_message(&mut self.main_thread_rx) {
            Some(message) => Some(self.react(message)),
            None => None,
        }
    }

    /// Starts to open the plugin's interface: embedded where that is
    /// possible, else floating.
    pub fn open_gui(&self) -> (r: Result<GuiStep, String>)
        requires
            self.wf(),
        ensures
            if self.gui_open {
                r matches Ok(step) && step == GuiStep::Done
            } else {
                match self.gui {
                    None => r matches Err(m) && m@ == "Plugin has no GUI"@,
                    Some(gui) => match gui.configuration {
                        None => r matches Err(m) && m@ == "Failed to open floating GUI: "@
                            + "Failed to create plugin GUI"@,
                        Some(c) => if c.is_floating {
                            &&& r matches Ok(GuiStep::OpenFloating { first, configuration })
                            &&& first@.len() == 0
                            &&& configuration.api_type@ == c.api_type@
                            &&& configuration.is_floating
                        } else {
                            &&& r matches Ok(GuiStep::OpenEmbedded(configuration))
                            &&& configuration.api_type@ == c.api_type@
                            &&& !configuration.is_floating
                        },
                    },
                }
            },
    {
        if self.gui_open {
            return Ok(GuiStep::Done);
        }
        let gui: &Gui = match &self.gui {
            Some(gui) => gui,
            None => {
                return Err(owned("Plugin has no GUI"));
            },
        };
        if !self.has_instance {
            return Err(owned("No plugin instance"));
        }
        match gui.embedding_configuration() {
            Some(configuration) => Ok(GuiStep::OpenEmbedded(configuration)),
            None => match gui.floating_configuration() {
                Some(configuration) => Ok(
                    GuiStep::OpenFloating { first: Vec::new(), configuration },
                ),
                None => Err(
                    join2("Failed to open floating GUI: ", GuiError::CreateError.words()),
                ),
            },
        }
    }

    /// Whether an interface can be embedded now.
    pub open spec fn can_embed(&self) -> bool {
        !self.gui_open && (self.gui matches Some(gui) && gui.embeds())
    }

    /// Takes over the outcome of embedding the interface. Where it failed, a
    /// floating one is tried, after what the plugin created has been
    /// destroyed.
    pub fn embedding_finished(&mut self, outcome: EmbedOutcome) -> (r: GuiStep)
        requires
            old(self).wf(),
            old(self).can_embed(),
        ensures
            final(self).wf(),
            final(self).same_plugin(old(self)),
            final(self).gui matches Some(gui) && gui.configuration == (
            old(self).gui->0).configuration,
            match outcome {
                EmbedOutcome::Attached { can_resize, reported, window } => {
                    &&& r == GuiStep::Done
                    &&& final(self).gui_open
                    &&& final(self).gui_window == Some(window)
                    &&& (final(self).gui->0).is_open
                    &&& (final(self).gui->0).is_resizable == can_resize
                    &&& (final(self).gui->0).initial_size == Some(gui::embedded_size_of(reported))
                },
                _ => {
                    &&& r matches GuiStep::OpenFloating { first, configuration }
                    &&& first@ == (if outcome is NotCreated {
                        Seq::<TeardownStep>::empty()
                    } else if outcome is NoWindow {
                        seq![TeardownStep::DestroyPluginGui]
                    } else {
                        seq![TeardownStep::DestroyPluginGui, TeardownStep::DropWindow]
                    })
                    &&& configuration.api_type@ == ((
                    old(self).gui->0).configuration->0).api_type@
                    &&& configuration.is_floating
                    &&& !final(self).gui_open
                    &&& final(self).gui_window is None
                    &&& outcome is NotCreated ==> *final(self) == *old(self)
                    &&& !(outcome is NotCreated) ==> {
                        &&& !(final(self).gui->0).is_open
                        &&& (final(self).gui->0).initial_size is None
                    }
                    &&& outcome matches EmbedOutcome::NoWindow { can_resize, .. } ==> (
                    final(self).gui->0).is_resizable == can_resize
                    &&& outcome matches EmbedOutcome::NotAttached { can_resize, .. } ==> (
                    final(self).gui->0).is_resizable == can_resize
                },
            },
    {
        let mut gui: Gui = match self.gui.take() {
            Some(gui) => gui,
            None => {
                return GuiStep::Done;
            },
        };
        let mut first: Vec<TeardownStep> = Vec::new();
        let mut attached: Option<PluginGuiWindow> = None;
        match outcome {
            EmbedOutcome::NotCreated => {
                let _ = gui.create_for_embedding(false, false, None);
            },
            EmbedOutcome::NoWindow { can_resize, reported } => {
                let _ = gui.create_for_embedding(true, can_resize, reported);
                if gui.destroy() {
                    first.push(TeardownStep::DestroyPluginGui);
                }
            },
            EmbedOutcome::NotAttached { can_resize, reported } => {
                let _ = gui.create_for_embedding(true, can_resize, reported);
                if gui.destroy() {
                    first.push(TeardownStep::DestroyPluginGui);
                }
                first.push(TeardownStep::DropWindow);
            },
            EmbedOutcome::Attached { can_resize, reported, window } => {
                let _ = gui.create_for_embedding(true, can_resize, reported);
                attached = Some(window);
            },
        }
        let floating: Option<GuiConfiguration> = gui.floating_configuration();
        self.gui = Some(gui);
        if attached.is_some() {
            self.gui_window = attached;
            self.gui_open = true;
            return GuiStep::Done;
        }
        match floating {
            Some(configuration) => GuiStep::OpenFloating { first, configuration },
            None => GuiStep::Done,
        }
    }

    /// Takes over the outcome of opening a floating interface.
    pub fn floating_finished(&mut self, outcome: Result<(), GuiError>) -> (r: Result<(), String>)
        requires
            old(self).wf(),
            !old(self).gui_open,
            old(self).gui matches Some(gui) && gui.configuration is Some,
        ensures
            final(self).wf(),
            match outcome {
                Ok(_) => {
                    &&& r is Ok
                    &&& final(self).gui_open
                    &&& final(self).gui == Some(Gui { is_open: true, ..old(self).gui->0 })
                    &&& final(self).gui_window is None
                    &&& final(self).same_plugin(old(self))
                },
                Err(e) => {
                    &&& r matches Err(m)
                    &&& m@ == "Failed to open floating GUI: "@ + gui::gui_error_words(e)
                    &&& *final(self) == *old(self)
                },
            },
    {
        let mut gui: Gui = match self.gui.take() {
            Some(gui) => gui,
            None => {
                return Err(owned("Plugin has no GUI"));
            },
        };
        let opened: Result<(), GuiError> = gui.open_floating(outcome);
        self.gui = Some(gui);
        match opened {
            Ok(_) => {
                self.gui_open = true;
                Ok(())
            },
            Err(e) => Err(join2("Failed to open floating GUI: ", e.words())),
        }
    }

    /// Closes the plugin's interface. Returns the steps to take, in order.
    pub fn close_gui(&mut self) -> (r: Vec<TeardownStep>)
        requires
            old(self).wf(),
        ensures
            final(self).wf(),
            r@ == old(self).closing_steps(),
            !final(self).gui_open,
            final(self).gui_window is None,
            final(self).same_plugin(old(self)),
            final(self).gui == (if old(self).gui_open {
                Some((old(self).gui->0).destroyed())
            } else {
                old(self).gui
            }),
    {
        let mut steps: Vec<TeardownStep> = Vec::new();
        if !self.gui_open {
            return steps;
        }
        let mut gui: Gui = match self.gui.take() {
            Some(gui) => gui,
            None => {
                return steps;
            },
        };
        if gui.destroy() {
            steps.push(TeardownStep::DestroyPluginGui);
        }
        self.gui = Some(gui);
        if self.gui_window.is_some() {
            steps.push(TeardownStep::DropWindow);
        }
        self.gui_window = None;
        self.gui_open = false;
        assert(steps@ =~= old(self).closing_steps());
        steps
    }

    /// Looks at what happened to the host's window. Where the user has asked
    /// to close it, the interface is closed; the steps to take come back.
    pub fn poll_window(&mut self, events: &Vec<WindowEvent>) -> (r: Vec<TeardownStep>)
        requires
            old(self).wf(),
        ensures
            final(self).wf(),
            final(self).same_plugin(old(self)),
            match old(self).gui_window {
                Some(window) => if window.0.close_requested || window.0.any_close(events@) {
                    &&& r@ == old(self).closing_steps()
                    &&& !final(self).gui_open
                    &&& final(self).gui_window is None
                    &&& final(self).gui == Some((old(self).gui->0).destroyed())
                } else {
                    &&& r@.len() == 0
                    &&& final(self).same_gui(old(self))
                },
                None => r@.len() == 0 && *final(self) == *old(self),
            },
    {
        match self.gui_window {
            Some(window) => {
                let mut polled: PluginGuiWindow = window;
                if polled.poll_events(events) {
                    self.close_gui()
                } else {
                    Vec::new()
                }
            },
            None => Vec::new(),
        }
    }

    /// Whether the interface is open.
    pub fn is_gui_open(&self) -> (r: bool)
        ensures
            r == self.gui_open,
    {
        self.gui_open
    }

    /// What becomes of the MIDI ring when a message is put on it: it gets the
    /// message, unless the ring is full, and it is not full before as many
    /// have been put on it as it holds. The ring stays the same one. Without a
    /// ring nothing happens.
    pub open spec fn midi_sent(before: PluginHost, message: Seq<u8>, after: PluginHost) -> bool {
        match before.midi_producer {
            Some(p) => {
                &&& after.midi_producer matches Some(q)
                &&& midi_bridge::ring_size(q) == midi_bridge::ring_size(p)
                &&& forall|consumer: rtrb::Consumer<RawMidiEvent>| #[trigger]
                    midi_bridge::joins(q, consumer) == midi_bridge::joins(p, consumer)
                &&& {
                    ||| {
                        &&& midi_bridge::put(q) == midi_bridge::put(p).push(
                            midi_bridge::put(q).last(),
                        )
                        &&& midi_bridge::put(q).last()@ == message
                    }
                    ||| {
                        &&& midi_bridge::put(q) == midi_bridge::put(p)
                        &&& midi_bridge::put(p).len() >= midi_bridge::ring_size(p)
                    }
                }
                &&& after == (PluginHost { midi_producer: after.midi_producer, ..before })
            },
            None => after == before,
        }
    }

    fn send_event(&mut self, event: RawMidiEvent)
        ensures
            Self::midi_sent(*old(self), event@, *final(self)),
    {
        match self.midi_producer.take() {
            Some(p) => {
                let mut producer: rtrb::Producer<RawMidiEvent> = p;
                let _ = push_event(&mut producer, event);
                self.midi_producer = Some(producer);
            },
            None => {},
        }
    }

    /// Sends a note-on to the plugin.
    pub fn send_note_on(&mut self, channel: u8, note: u8, velocity: u8)
        ensures
            Self::midi_sent(
                *old(self),
                crate::midi_engine::note_on_message(channel, note, velocity),
                *final(self),
            ),
    {
        self.send_event(RawMidiEvent::from_array(note_on_bytes(channel, note, velocity)));
    }

    /// Sends a note-off to the plugin.
    pub fn send_note_off(&mut self, channel: u8, note: u8)
        ensures
            Self::midi_sent(
                *old(self),
                crate::midi_engine::note_off_message(channel, note),
                *final(self),
            ),
    {
        self.send_event(RawMidiEvent::from_array(note_off_bytes(channel, note)));
    }

    /// Sends raw MIDI bytes to the plugin; only messages of one to three
    /// bytes go out.
    pub fn send_raw_midi(&mut self, bytes: &[u8])
        ensures
            if 1 <= bytes@.len() <= 3 {
                Self::midi_sent(*old(self), bytes@, *final(self))
            } else {
                *final(self) == *old(self)
            },
    {
        match RawMidiEvent::from_bytes(bytes) {
            Some(event) => self.send_event(event),
            None => {},
        }
    }

    /// Whether a plugin is loaded.
    pub fn is_loaded(&self) -> (r: bool)
        ensures
            r == !(self.status is Unloaded),
    {
        match &self.status {
            HostStatus::Unloaded => false,
            _ => true,
        }
    }
}

/// Whenever the host's window goes, the plugin has destroyed its interface
/// right before.
pub proof fn law_window_outlives_plugin_gui(host: PluginHost, i: int)
    requires
        host.wf(),
        0 <= i < host.unloading_steps().len(),
        host.unloading_steps()[i] == TeardownStep::DropWindow,
    ensures
        i > 0,
        host.unloading_steps()[i - 1] == TeardownStep::DestroyPluginGui,
{
}

/// Unloading lets go of the plugin's file last, right after the instance, and
/// of the interface before both.
pub proof fn law_unload_order(host: PluginHost)
    requires
        host.wf(),
        !(host.status is Unloaded),
    ensures
        ({
            let steps = host.unloading_steps();
            let n = steps.len() as int;
            &&& n >= 2
            &&& steps[n - 1] == TeardownStep::DropEntry
            &&& steps[n - 2] == TeardownStep::DropInstance
            &&& steps.take(n - 2) == host.closing_steps()
        }),
{
    assert(host.unloading_steps().take(host.unloading_steps().len() - 2)
        =~= host.closing_steps());
}

/// What taking a plugin down comes to: its interface is destroyed exactly where
/// it exists and is open, the window goes exactly where there is one, and an
/// unloaded host has nothing to take down.
pub proof fn law_only_what_exists_is_taken_down(host: PluginHost)
    requires
        host.wf(),
    ensures
        host.closing_steps().contains(TeardownStep::DestroyPluginGui) <==> host.gui_open && (
        host.gui->0).is_open,
        host.closing_steps().contains(TeardownStep::DropWindow) <==> host.gui_window is Some,
        !host.closing_steps().contains(TeardownStep::DropInstance),
        !host.closing_steps().contains(TeardownStep::DropEntry),
        host.status is Unloaded ==> host.unloading_steps().len() == 0,
        host.closing_steps().no_duplicates(),
{
    let steps = host.closing_steps();
    if host.gui_open && (host.gui->0).is_open {
        assert(steps[0] == TeardownStep::DestroyPluginGui);
        if host.gui_window is Some {
            assert(steps[1] == TeardownStep::DropWindow);
        }
    }
}

/// What the host does about each message: it runs the callback of a plugin
/// that is there, follows the size of an interface in its own window, and
/// closes an interface that says it is gone; the plugin itself stays.
pub proof fn law_messages_are_answered(
    before: PluginHost,
    new_size: GuiSize,
    after: PluginHost,
    task: HostTask,
)
    requires
        before.wf(),
    ensures
        PluginHost::reacts(before, MainThreadMessage::RunOnMainThread, after, task) ==> after
            == before && (task == HostTask::RunCallback <==> before.has_instance),
        PluginHost::reacts(before, MainThreadMessage::GuiClosed, after, task) ==> {
            &&& !after.gui_open
            &&& after.gui_window is None
            &&& after.status == before.status
            &&& after.plugin_name == before.plugin_name
            &&& after.midi_producer == before.midi_producer
            &&& before.gui_window is Some ==> (task matches HostTask::TearDown(steps)
                && steps@ == seq![TeardownStep::DestroyPluginGui, TeardownStep::DropWindow])
            &&& before.gui_window is None ==> task == HostTask::Nothing
        },
        PluginHost::reacts(
            before,
            MainThreadMessage::GuiRequestResized { new_size },
            after,
            task,
        ) ==> {
            &&& before.gui_window is None ==> task == HostTask::Nothing && after == before
            &&& before.gui_window matches Some(window) ==> {
                &&& task matches HostTask::ResizeWindow { width, height }
                &&& 0 < new_size.width <= 0xFFFF ==> width == new_size.width
                &&& 0 < new_size.height <= 0xFFFF ==> height == new_size.height
                &&& after.gui_window matches Some(now)
                &&& now.0.width == width
                &&& now.0.height == height
                &&& now.0.window == window.0.window
                &&& after.gui_open == before.gui_open
            }
        },
{
    assert(before.gui_window is Some ==> before.closing_steps() =~= seq![
        TeardownStep::DestroyPluginGui,
        TeardownStep::DropWindow,
    ]);
}

/// A message that is sent is the newest on the ring, behind all that were put
/// there before; a ring that has had fewer than it holds always takes it.
pub proof fn law_sent_midi_is_put_behind(before: PluginHost, message: Seq<u8>, after: PluginHost)
    requires
        PluginHost::midi_sent(before, message, after),
    ensures
        before.midi_producer is None ==> after == before,
        before.midi_producer matches Some(p) ==> {
            &&& after.midi_producer matches Some(q)
            &&& midi_bridge::put(p).is_prefix_of(midi_bridge::put(q))
            &&& midi_bridge::put(q).len() <= midi_bridge::put(p).len() + 1
            &&& midi_bridge::put(p).len() < midi_bridge::ring_size(p) ==> midi_bridge::put(q).len()
                == midi_bridge::put(p).len() + 1 && midi_bridge::put(q).last()@ == message
            &&& after.status == before.status
            &&& after.gui_open == before.gui_open
        },
{
}

/// An unloaded host holds nothing of a plugin.
pub proof fn law_unloaded_host_is_empty(host: PluginHost)
    requires
        host.wf(),
        host.status is Unloaded,
    ensures
        !host.has_instance,
        host.midi_producer is None,
        host.gui is None,
        !host.gui_open,
        host.gui_window is None,
        host.plugin_name is None,
        host.plugin_id is None,
        host.loaded_path is None,
{
}

/// Embedding is possible exactly where an interface that can be embedded is
/// not open yet.
pub proof fn law_what_can_be_embedded(host: PluginHost)
    ensures
        host.can_embed() <==> !host.gui_open && host.gui is Some && (
        host.gui->0).configuration is Some && !((host.gui->0).configuration->0).is_floating,
{
}

/// What counts as the same plugin, and as the same interface: together, all
/// that a host holds.
pub proof fn law_same_plugin_and_interface(a: PluginHost, b: PluginHost)
    ensures
        a.same_plugin(&b) && a.same_gui(&b) ==> a == b,
        a.same_plugin(&b) ==> a.status == b.status && a.plugin_name == b.plugin_name && a.plugin_id
            == b.plugin_id && a.mode == b.mode && a.has_instance == b.has_instance
            && a.midi_producer == b.midi_producer && a.loaded_path == b.loaded_path,
{
}

/// A fresh channel leads from the host's sending end to its receiving end, and
/// is empty.
pub proof fn law_fresh_channel_is_empty(host: PluginHost)
    requires
        host.has_fresh_channel(),
    ensures
        connects(host.main_thread_tx, host.main_thread_rx),
        received(host.main_thread_rx).len() == 0,
        unread(host.main_thread_rx).len() == 0,
{
}

} // verus!

//! The audio settings window.

use crate::audio_engine::{AudioEngine, AudioStatus, RunningInfo};
use crate::text::{decimal, join2, owned, push_decimal};
use crate::ui::Color;
use vstd::prelude::*;
use vstd::string::*;

verus! {

/// The audio settings window.
#[derive(Debug, Clone, Copy, PartialEq, Eq)]
pub struct SettingsPanel {
    pub is_open: bool,
}

impl Default for SettingsPanel {
    /// A closed window.
    fn default() -> (r: Self)
        ensures
            !r.is_open,
    {
        SettingsPanel { is_open: false }
    }
}

/// What the start button does.
#[derive(Debug, Clone, Copy, PartialEq, Eq, Structural)]
pub enum StartStop {
    Start,
    Stop,
}

/// A sample rate, as it is shown.
pub fn rate_label(rate: u32) -> (r: String)
    ensures
        r@ == decimal(rate as nat) + " Hz"@,
{
    let mut out: String = String::new();
    push_decimal(&mut out, rate as u64);
    assert(out@ =~= decimal(rate as nat));
    out.append(" Hz");
    out
}

/// What runs, as it is shown.
pub open spec fn running_text(info: RunningInfo) -> Seq<char> {
    "● Running  │  "@ + decimal(info.sample_rate as nat) + " Hz  │  "@ + info.buffer_size@
        + " samples  │  "@ + decimal(info.channels as nat) + " ch"@
}

fn running_line(info: &RunningInfo) -> (r: String)
    ensures
        r@ == running_text(*info),
{
    let mut out: String = owned("● Running  │  ");
    push_decimal(&mut out, info.sample_rate as u64);
    out.append(" Hz  │  ");
    out.append(info.buffer_size.as_str());
    out.append(" samples  │  ");
    push_decimal(&mut out, info.channels as u64);
    out.append(" ch");
    out
}

/// How the engine's status is shown.
pub fn audio_banner(engine: &AudioEngine) -> (r: Option<(String, Color)>)
    ensures
        match engine.status {
            AudioStatus::Stopped => r matches Some((text, color)) && text@ == "● Stopped"@ && color
                == Color::Gray,
            AudioStatus::Running => match engine.running_info {
                Some(info) => r matches Some((text, color)) && text@ == running_text(info) && color
                    == Color::Rgb(100, 220, 100),
                None => r is None,
            },
            AudioStatus::Error(e) => r matches Some((text, color)) && text@ == "✗  "@ + e@
                && color == Color::Rgb(255, 90, 90),
        },
{
    match &engine.status {
        AudioStatus::Stopped => Some((owned("● Stopped"), Color::Gray)),
        AudioStatus::Running => match &engine.running_info {
            Some(info) => Some((running_line(info), Color::Rgb(100, 220, 100))),
            None => None,
        },
        AudioStatus::Error(e) => Some((join2("✗  ", e.as_str()), Color::Rgb(255, 90, 90))),
    }
}

/// The start button: its label and color, and what it does.
pub fn start_stop_button(status: &AudioStatus) -> (r: (&'static str, Color, StartStop))
    ensures
        (r.0@, r.1, r.2) == (if *status is Running {
            ("⏹  Stop Audio"@, Color::Rgb(255, 100, 100), StartStop::Stop)
        } else {
            ("▶  Start Audio"@, Color::Rgb(100, 220, 100), StartStop::Start)
        }),
{
    match status {
        AudioStatus::Running => (
            "⏹  Stop Audio",
            Color::Rgb(255, 100, 100),
            StartStop::Stop,
        ),
        _ => ("▶  Start Audio", Color::Rgb(100, 220, 100), StartStop::Start),
    }
}

/// What pressing the start button does to the engine by itself: it stops one
/// that runs. One that does not is left to be started.
pub open spec fn after_press(engine: AudioEngine) -> AudioEngine {
    if engine.status is Running {
        engine.stopped()
    } else {
        engine
    }
}

/// Presses the start button. Returns what it does.
pub fn press(engine: &mut AudioEngine) -> (r: StartStop)
    requires
        old(engine).wf(),
    ensures
        final(engine).wf(),
        *final(engine) == after_press(*old(engine)),
        r == (if old(engine).status is Running {
            StartStop::Stop
        } else {
            StartStop::Start
        }),
{
    let (_, _, effect) = start_stop_button(&engine.status);
    match effect {
        StartStop::Stop => engine.stop(),
        StartStop::Start => {},
    }
    effect
}

/// The devices that were found when they were listed anew; `None` where a
/// direction could not be listed.
#[derive(Debug, Clone)]
pub struct FoundDevices {
    pub inputs: Option<Vec<Option<String>>>,
    pub outputs: Option<Vec<Option<String>>>,
}

/// What the user did in the window in a frame.
#[derive(Debug, Clone)]
pub struct SettingsInput {
    pub closed: bool,
    /// The start button was pressed.
    pub start_stop_pressed: bool,
    /// The devices were asked to be listed anew, and these were found.
    pub refreshed: Option<FoundDevices>,
}

impl SettingsPanel {
    /// Opens the window over the devices that exist now.
    pub fn open(
        &mut self,
        engine: &mut AudioEngine,
        inputs: &Option<Vec<Option<String>>>,
        outputs: &Option<Vec<Option<String>>>,
    )
        requires
            old(engine).wf(),
        ensures
            final(self).is_open,
            final(engine).wf(),
            AudioEngine::is_refreshed(*old(engine), *inputs, *outputs, *final(engine)),
    {
        engine.refresh_devices(inputs, outputs);
        self.is_open = true;
    }

    /// Ends a frame of the window. While it is open, the start button stops an
    /// engine that runs, and a new list of devices is taken over. Returns
    /// `true` if the user pressed the start button, so that the caller can
    /// start an engine that did not run, or let the streams go of one that
    /// did.
    pub fn show(&mut self, engine: &mut AudioEngine, input: &SettingsInput) -> (r: bool)
        requires
            old(engine).wf(),
        ensures
            final(engine).wf(),
            final(self).is_open == (old(self).is_open && !input.closed),
            r == (old(self).is_open && input.start_stop_pressed),
            if old(self).is_open {
                let pressed = if input.start_stop_pressed {
                    after_press(*old(engine))
                } else {
                    *old(engine)
                };
                match input.refreshed {
                    Some(found) => AudioEngine::is_refreshed(
                        pressed,
                        found.inputs,
                        found.outputs,
                        *final(engine),
                    ),
                    None => *final(engine) == pressed,
                }
            } else {
                *final(engine) == *old(engine)
            },
    {
        if !self.is_open {
            return false;
        }
        if input.start_stop_pressed {
            let _ = press(engine);
        }
        match &input.refreshed {
            Some(found) => engine.refresh_devices(&found.inputs, &found.outputs),
            None => {},
        }
        self.is_open = !input.closed;
        input.start_stop_pressed
    }
}

/// The start button stops an engine that runs, and leaves any other to be
/// started.
pub proof fn law_start_button_toggles(engine: AudioEngine)
    ensures
        engine.status is Running ==> after_press(engine).status is Stopped && after_press(
            engine,
        ).streams is None && after_press(engine).same_choices(&engine),
        !(engine.status is Running) ==> after_press(engine) == engine,
{
}

/// What runs is shown with its rate, its buffer size and its channels.
pub proof fn law_what_runs_is_shown(info: RunningInfo)
    ensures
        running_text(info) == "● Running  │  "@ + decimal(info.sample_rate as nat)
            + " Hz  │  "@ + info.buffer_size@ + " samples  │  "@ + decimal(
            info.channels as nat,
        ) + " ch"@,
{
}

} // verus!

//! The audio engine: which devices, rate and buffer are chosen, and what runs.

use crate::text::{append_readable, join2, owned, readable_names, same_text};
use vstd::prelude::*;

verus! {

// ── Choices ─────────────────────────────────────────────────────────────────

/// The sample rates on offer, in Hz.
pub const COMMON_SAMPLE_RATES: [u32; 5] = [44100, 48000, 88200, 96000, 192000];

/// The buffer sizes on offer: a label, and the number of frames.
pub const BUFFER_SIZE_OPTIONS: [(&'static str, u32); 7] = [
    ("Default", 256),
    ("64", 64),
    ("128", 128),
    ("256", 256),
    ("512", 512),
    ("1024", 1024),
    ("2048", 2048),
];

/// Whether audio runs.
#[derive(Debug, Clone, PartialEq, Eq)]
pub enum AudioStatus {
    Stopped,
    Running,
    Error(String),
}

/// What runs, in words for the user.
#[derive(Debug, Clone, PartialEq, Eq)]
pub struct RunningInfo {
    pub input_device: String,
    pub output_device: String,
    pub sample_rate: u32,
    pub buffer_size: String,
    pub channels: u16,
}

/// Which streams run.
#[derive(Debug, Clone, Copy, PartialEq, Eq, Structural)]
pub enum StreamHolder {
    /// Input straight to output.
    Passthrough,
    /// A plugin to output.
    PluginOutput,
    /// Input through a plugin to output.
    PluginInsert,
}

/// The way that a device's audio goes.
#[derive(Debug, Clone, Copy, PartialEq, Eq, Structural)]
pub enum Direction {
    Input,
    Output,
}

/// What the streams are opened with.
#[derive(Debug, Clone, Copy, PartialEq, Eq)]
pub struct StreamPlan {
    pub channels: u16,
    pub sample_rate: u32,
    /// The buffer size, in frames.
    pub buffer_size: u32,
    /// How many samples may wait between input and output.
    pub queue_capacity: u64,
}

/// What starting the streams failed at, with the reason.
#[derive(Debug, Clone, PartialEq, Eq)]
pub enum StreamFailure {
    /// A device is missing; the reason is complete in itself.
    Device(String),
    InputConfig(String),
    OutputConfig(String),
    BuildInput(String),
    BuildOutput(String),
    PlayOutput(String),
}

impl StreamFailure {
    /// The failure in words.
    pub open spec fn words(&self) -> Seq<char> {
        match *self {
            StreamFailure::Device(e) => e@,
            StreamFailure::InputConfig(e) => "Input config error: "@ + e@,
            StreamFailure::OutputConfig(e) => "Output config error: "@ + e@,
            StreamFailure::BuildInput(e) => "Failed to build input stream: "@ + e@,
            StreamFailure::BuildOutput(e) => "Failed to build output stream: "@ + e@,
            StreamFailure::PlayOutput(e) => "Failed to play output stream: "@ + e@,
        }
    }

    /// The failure in words.
    pub fn message(&self) -> (r: String)
        ensures
            r@ == self.words(),
    {
        match self {
            StreamFailure::Device(e) => owned(e.as_str()),
            StreamFailure::InputConfig(e) => join2("Input config error: ", e.as_str()),
            StreamFailure::OutputConfig(e) => join2("Output config error: ", e.as_str()),
            StreamFailure::BuildInput(e) => join2("Failed to build input stream: ", e.as_str()),
            StreamFailure::BuildOutput(e) => join2("Failed to build output stream: ", e.as_str()),
            StreamFailure::PlayOutput(e) => join2("Failed to play output stream: ", e.as_str()),
        }
    }
}

// ── Devices ─────────────────────────────────────────────────────────────────

/// The devices that a list of names is for: the default one, then every one
/// whose name can be read.
pub open spec fn is_device_list(names: Seq<String>, found: Option<Vec<Option<String>>>) -> bool {
    &&& names.len() > 0
    &&& names[0]@ == "Default"@
    &&& names.skip(1) == (match found {
        Some(devices) => readable_names(devices@),
        None => Seq::empty(),
    })
}

/// The names to choose a device by. `found` is `None` where the devices could
/// not be listed, and an item of it where that device's name cannot be read.
pub fn enumerate_devices(found: &Option<Vec<Option<String>>>) -> (r: Vec<String>)
    ensures
        is_device_list(r@, *found),
{
    let mut names: Vec<String> = Vec::new();
    names.push(owned("Default"));
    let ghost before = names@;
    match found {
        Some(devices) => {
            append_readable(&mut names, devices);
            assert(names@.skip(1) =~= readable_names(devices@));
        },
        None => {
            assert(names@.skip(1) =~= Seq::empty());
        },
    }
    assert(names@[0] == before[0]);
    names
}

/// Whether `i` is the first listed device of the given name.
pub open spec fn is_first_named(listed: Seq<Option<String>>, target: Seq<char>, i: int) -> bool {
    &&& 0 <= i < listed.len()
    &&& is_named(listed[i], target)
    &&& forall|j: int| 0 <= j < i ==> !is_named(#[trigger] listed[j], target)
}

/// Whether a listed device has a readable name, and which is the given one.
pub open spec fn is_named(device: Option<String>, target: Seq<char>) -> bool {
    device matches Some(name) && name@ == target
}

/// Picks the chosen device: `None` for the default one, which the first choice
/// stands for, else the place among the listed devices of the first that has
/// the chosen name.
pub fn pick_device(
    direction: Direction,
    choice: usize,
    names: &Vec<String>,
    has_default: bool,
    listed: &Result<Vec<Option<String>>, String>,
) -> (r: Result<Option<usize>, String>)
    requires
        choice == 0 || choice < names@.len(),
    ensures
        if choice == 0 {
            if has_default {
                r matches Ok(None)
            } else {
                r matches Err(m) && m@ == (match direction {
                    Direction::Input => "No default input device found"@,
                    Direction::Output => "No default output device found"@,
                })
            }
        } else {
            match *listed {
                Err(e) => r matches Err(m) && m@ == e@,
                Ok(devices) => match r {
                    Ok(found) => found matches Some(i) && is_first_named(
                        devices@,
                        names@[choice as int]@,
                        i as int,
                    ),
                    Err(m) => {
                        &&& forall|j: int|
                            0 <= j < devices@.len() ==> !is_named(
                                #[trigger] devices@[j],
                                names@[choice as int]@,
                            )
                        &&& m@ == (match direction {
                            Direction::Input => "Input device not found: "@,
                            Direction::Output => "Output device not found: "@,
                        }) + names@[choice as int]@
                    },
                },
            }
        },
{
    if choice == 0 {
        if has_default {
            return Ok(None);
        }
        return match direction {
            Direction::Input => Err(owned("No default input device found")),
            Direction::Output => Err(owned("No default output device found")),
        };
    }
    let target: &String = &names[choice];
    let devices: &Vec<Option<String>> = match listed {
        Ok(devices) => devices,
        Err(e) => {
            return Err(owned(e.as_str()));
        },
    };
    let mut i: usize = 0;
    while i < devices.len()
        invariant
            choice != 0,
            i <= devices.len(),
            *listed == Ok::<Vec<Option<String>>, String>(*devices),
            choice < names@.len(),
            target@ == names@[choice as int]@,
            forall|j: int| 0 <= j < i ==> !is_named(#[trigger] devices@[j], target@),
        decreases devices.len() - i,
    {
        match &devices[i] {
            Some(name) => {
                if same_text(name.as_str(), target.as_str()) {
                    return Ok(Some(i));
                }
            },
            None => {},
        }
        i = i + 1;
    }
    match direction {
        Direction::Input => Err(join2("Input device not found: ", target.as_str())),
        Direction::Output => Err(join2("Output device not found: ", target.as_str())),
    }
}

/// A device's name, or "Unknown" where it cannot be read.
pub open spec fn shown_device(name: Option<String>) -> Seq<char> {
    match name {
        Some(n) => n@,
        None => "Unknown"@,
    }
}

fn device_name(name: Option<String>) -> (r: String)
    ensures
        r@ == shown_device(name),
{
    match name {
        Some(n) => n,
        None => owned("Unknown"),
    }
}

// ── Plans ───────────────────────────────────────────────────────────────────

/// How many samples may wait between input and output: a second's worth, and
/// at least 65536.
pub open spec fn queue_samples(sample_rate: u32, channels: u16) -> int {
    if sample_rate * channels > 65536 {
        sample_rate * channels
    } else {
        65536
    }
}

fn queue_size(sample_rate: u32, channels: u16) -> (r: u64)
    ensures
        r == queue_samples(sample_rate, channels),
{
    assert(0 <= sample_rate * channels <= 0xFFFF_FFFF * 0xFFFF) by (nonlinear_arith)
        requires
            0 <= sample_rate <= 0xFFFF_FFFF,
            0 <= channels <= 0xFFFF,
    ;
    let second: u64 = sample_rate as u64 * channels as u64;
    if second > 65536 {
        second
    } else {
        65536
    }
}

/// The number of channels that a plugin's output is played on: its own, but
/// one at least and two at most.
pub open spec fn plugin_channels_of(output_channels: usize) -> u16 {
    if output_channels < 1 {
        1
    } else if output_channels > 2 {
        2
    } else {
        output_channels as u16
    }
}

/// The number of channels that a plugin's output is played on.
pub fn plugin_channels(output_channels: usize) -> (r: u16)
    ensures
        r == plugin_channels_of(output_channels),
{
    if output_channels < 1 {
        1
    } else if output_channels > 2 {
        2
    } else {
        output_channels as u16
    }
}

/// What streams straight from input to output report once they run.
#[derive(Debug, Clone)]
pub struct PassthroughStarted {
    pub input_name: Option<String>,
    pub output_name: Option<String>,
    pub channels: u16,
}

// ── The engine ──────────────────────────────────────────────────────────────

/// The audio engine.
#[derive(Debug, Clone)]
pub struct AudioEngine {
    pub status: AudioStatus,
    pub running_info: Option<RunningInfo>,
    pub input_device_names: Vec<String>,
    pub output_device_names: Vec<String>,
    pub selected_input_idx: usize,
    pub selected_output_idx: usize,
    pub selected_sample_rate_idx: usize,
    pub selected_buffer_size_idx: usize,
    pub streams: Option<StreamHolder>,
}

/// A choice out of `count`, brought down to the last one where it is past it.
pub open spec fn clamped_choice(choice: usize, count: nat) -> usize {
    if count == 0 || choice < count {
        choice
    } else {
        (count - 1) as usize
    }
}

fn clamp_choice(choice: usize, count: usize) -> (r: usize)
    ensures
        r == clamped_choice(choice, count as nat),
{
    if count == 0 || choice < count {
        choice
    } else {
        count - 1
    }
}

impl AudioEngine {
    /// Every choice stands for something, and the engine runs exactly while
    /// it holds streams and can say what they are.
    pub open spec fn wf(&self) -> bool {
        &&& self.selected_input_idx < self.input_device_names@.len()
        &&& self.selected_output_idx < self.output_device_names@.len()
        &&& self.selected_sample_rate_idx < 5
        &&& self.selected_buffer_size_idx < 7
        &&& self.status is Running <==> self.streams is Some
        &&& self.running_info is Some <==> self.streams is Some
    }

    /// The choices and the lists they are made from.
    pub open spec fn same_choices(&self, other: &Self) -> bool {
        &&& self.input_device_names == other.input_device_names
        &&& self.output_device_names == other.output_device_names
        &&& self.selected_input_idx == other.selected_input_idx
        &&& self.selected_output_idx == other.selected_output_idx
        &&& self.selected_sample_rate_idx == other.selected_sample_rate_idx
        &&& self.selected_buffer_size_idx == other.selected_buffer_size_idx
    }

    /// The chosen sample rate, in Hz.
    pub open spec fn rate(&self) -> u32 {
        COMMON_SAMPLE_RATES@[self.selected_sample_rate_idx as int]
    }

    /// The chosen buffer size, in frames.
    pub open spec fn frames(&self) -> u32 {
        BUFFER_SIZE_OPTIONS@[self.selected_buffer_size_idx as int].1
    }

    /// A stopped engine with the first of every choice.
    pub fn new(inputs: &Option<Vec<Option<String>>>, outputs: &Option<Vec<Option<String>>>) -> (r:
        Self)
        ensures
            r.wf(),
            r.status is Stopped,
            is_device_list(r.input_device_names@, *inputs),
            is_device_list(r.output_device_names@, *outputs),
            r.selected_input_idx == 0,
            r.selected_output_idx == 0,
            r.selected_sample_rate_idx == 0,
            r.selected_buffer_size_idx == 0,
    {
        AudioEngine {
            status: AudioStatus::Stopped,
            running_info: None,
            input_device_names: enumerate_devices(inputs),
            output_device_names: enumerate_devices(outputs),
            selected_input_idx: 0,
            selected_output_idx: 0,
            selected_sample_rate_idx: 0,
            selected_buffer_size_idx: 0,
            streams: None,
        }
    }

    /// This engine once it is stopped.
    pub open spec fn stopped(self) -> AudioEngine {
        AudioEngine {
            status: AudioStatus::Stopped,
            running_info: None,
            streams: None,
            ..self
        }
    }

    /// What an engine is after its devices were listed anew.
    pub open spec fn is_refreshed(
        before: AudioEngine,
        inputs: Option<Vec<Option<String>>>,
        outputs: Option<Vec<Option<String>>>,
        after: AudioEngine,
    ) -> bool {
        &&& is_device_list(after.input_device_names@, inputs)
        &&& is_device_list(after.output_device_names@, outputs)
        &&& after == (AudioEngine {
            input_device_names: after.input_device_names,
            output_device_names: after.output_device_names,
            selected_input_idx: clamped_choice(
                before.selected_input_idx,
                after.input_device_names@.len(),
            ),
            selected_output_idx: clamped_choice(
                before.selected_output_idx,
                after.output_device_names@.len(),
            ),
            ..before
        })
    }

    /// Lists the devices anew. A choice past the end of its list becomes the
    /// last one on it.
    pub fn refresh_devices(
        &mut self,
        inputs: &Option<Vec<Option<String>>>,
        outputs: &Option<Vec<Option<String>>>,
    )
        requires
            old(self).wf(),
        ensures
            final(self).wf(),
            Self::is_refreshed(*old(self), *inputs, *outputs, *final(self)),
    {
        self.input_device_names = enumerate_devices(inputs);
        self.output_device_names = enumerate_devices(outputs);
        self.selected_input_idx = clamp_choice(
            self.selected_input_idx,
            self.input_device_names.len(),
        );
        self.selected_output_idx = clamp_choice(
            self.selected_output_idx,
            self.output_device_names.len(),
        );
    }

    /// The chosen sample rate, in Hz.
    pub fn current_sample_rate(&self) -> (r: u32)
        requires
            self.wf(),
        ensures
            r == self.rate(),
    {
        let rates: [u32; 5] = COMMON_SAMPLE_RATES;
        rates[self.selected_sample_rate_idx]
    }

    /// The smallest and the largest block that the plugin will see, which the
    /// chosen buffer size fixes.
    pub fn current_buffer_size(&self) -> (r: (u32, u32))
        requires
            self.wf(),
        ensures
            r == (self.frames(), self.frames()),
    {
        let options: [(&'static str, u32); 7] = BUFFER_SIZE_OPTIONS;
        let n: u32 = options[self.selected_buffer_size_idx].1;
        (n, n)
    }

    /// The input device chosen, as `pick_device` gives it.
    pub fn input_device(&self, has_default: bool, listed: &Result<Vec<Option<String>>, String>) -> (r:
        Result<Option<usize>, StreamFailure>)
        requires
            self.wf(),
        ensures
            match r {
                Ok(place) => if self.selected_input_idx == 0 {
                    has_default && place is None
                } else {
                    &&& place matches Some(i)
                    &&& *listed matches Ok(devices)
                    &&& is_first_named(
                        devices@,
                        self.input_device_names@[self.selected_input_idx as int]@,
                        i as int,
                    )
                },
                Err(failure) => failure is Device && if self.selected_input_idx == 0 {
                    !has_default && failure.words() == "No default input device found"@
                } else {
                    let target = self.input_device_names@[self.selected_input_idx as int]@;
                    match *listed {
                        Err(e) => failure.words() == e@,
                        Ok(devices) => {
                            &&& failure.words() == "Input device not found: "@ + target
                            &&& forall|j: int|
                                0 <= j < devices@.len() ==> !is_named(
                                    #[trigger] devices@[j],
                                    target,
                                )
                        },
                    }
                },
            },
    {
        match pick_device(
            Direction::Input,
            self.selected_input_idx,
            &self.input_device_names,
            has_default,
            listed,
        ) {
            Ok(place) => Ok(place),
            Err(e) => Err(StreamFailure::Device(e)),
        }
    }

    /// The output device chosen, as `pick_device` gives it.
    pub fn output_device(&self, has_default: bool, listed: &Result<Vec<Option<String>>, String>) -> (r:
        Result<Option<usize>, StreamFailure>)
        requires
            self.wf(),
        ensures
            match r {
                Ok(place) => if self.selected_output_idx == 0 {
                    has_default && place is None
                } else {
                    &&& place matches Some(i)
                    &&& *listed matches Ok(devices)
                    &&& is_first_named(
                        devices@,
                        self.output_device_names@[self.selected_output_idx as int]@,
                        i as int,
                    )
                },
                Err(failure) => failure is Device && if self.selected_output_idx == 0 {
                    !has_default && failure.words() == "No default output device found"@
                } else {
                    let target = self.output_device_names@[self.selected_output_idx as int]@;
                    match *listed {
                        Err(e) => failure.words() == e@,
                        Ok(devices) => {
                            &&& failure.words() == "Output device not found: "@ + target
                            &&& forall|j: int|
                                0 <= j < devices@.len() ==> !is_named(
                                    #[trigger] devices@[j],
                                    target,
                                )
                        },
                    }
                },
            },
    {
        match pick_device(
            Direction::Output,
            self.selected_output_idx,
            &self.output_device_names,
            has_default,
            listed,
        ) {
            Ok(place) => Ok(place),
            Err(e) => Err(StreamFailure::Device(e)),
        }
    }

    /// The plan for the given number of channels.
    pub open spec fn plan_for(&self, channels: u16) -> StreamPlan {
        StreamPlan {
            channels,
            sample_rate: self.rate(),
            buffer_size: self.frames(),
            queue_capacity: queue_samples(self.rate(), channels) as u64,
        }
    }

    fn plan(&self, channels: u16) -> (r: StreamPlan)
        requires
            self.wf(),
        ensures
            r == self.plan_for(channels),
    {
        let rate: u32 = self.current_sample_rate();
        let options: [(&'static str, u32); 7] = BUFFER_SIZE_OPTIONS;
        StreamPlan {
            channels,
            sample_rate: rate,
            buffer_size: options[self.selected_buffer_size_idx].1,
            queue_capacity: queue_size(rate, channels),
        }
    }

    /// The plan for streams straight from input to output: as many channels
    /// as both devices have by default.
    pub fn passthrough_plan(&self, input: Result<u16, String>, output: Result<u16, String>) -> (r:
        Result<StreamPlan, StreamFailure>)
        requires
            self.wf(),
        ensures
            match (input, output) {
                (Err(e), _) => r matches Err(f) && f == StreamFailure::InputConfig(e),
                (Ok(_), Err(e)) => r matches Err(f) && f == StreamFailure::OutputConfig(e),
                (Ok(i), Ok(o)) => r matches Ok(plan) && plan == self.plan_for(
                    if i <= o {
                        i
                    } else {
                        o
                    },
                ),
            },
    {
        match input {
            Err(e) => Err(StreamFailure::InputConfig(e)),
            Ok(i) => match output {
                Err(e) => Err(StreamFailure::OutputConfig(e)),
                Ok(o) => Ok(
                    self.plan(
                        if i <= o {
                            i
                        } else {
                            o
                        },
                    ),
                ),
            },
        }
    }

    /// The plan for streams with a plugin that has the given number of output
    /// channels.
    pub fn plugin_plan(&self, output_channels: usize) -> (r: StreamPlan)
        requires
            self.wf(),
        ensures
            r == self.plan_for(plugin_channels_of(output_channels)),
    {
        self.plan(plugin_channels(output_channels))
    }

    /// The engine runs, and says so in these words.
    pub open spec fn runs(
        &self,
        streams: StreamHolder,
        input: Seq<char>,
        output: Seq<char>,
        channels: u16,
    ) -> bool {
        &&& self.status is Running
        &&& self.streams == Some(streams)
        &&& self.running_info matches Some(info)
        &&& info.input_device@ == input
        &&& info.output_device@ == output
        &&& info.sample_rate == self.rate()
        &&& info.buffer_size@ == BUFFER_SIZE_OPTIONS@[self.selected_buffer_size_idx as int].0@
        &&& info.channels == channels
    }

    /// The engine does not run, and says why.
    pub open spec fn failed(&self, failure: StreamFailure) -> bool {
        &&& self.status matches AudioStatus::Error(m)
        &&& m@ == failure.words()
        &&& self.streams is None
        &&& self.running_info is None
    }

    fn run(&mut self, streams: StreamHolder, input: String, output: String, channels: u16)
        requires
            old(self).wf(),
        ensures
            final(self).wf(),
            final(self).same_choices(old(self)),
            final(self).runs(streams, input@, output@, channels),
    {
        let sample_rate: u32 = self.current_sample_rate();
        let options: [(&'static str, u32); 7] = BUFFER_SIZE_OPTIONS;
        let buffer_size: String = owned(options[self.selected_buffer_size_idx].0);
        self.running_info = Some(
            RunningInfo {
                input_device: input,
                output_device: output,
                sample_rate,
                buffer_size,
                channels,
            },
        );
        self.streams = Some(streams);
        self.status = AudioStatus::Running;
    }

    fn fail(&mut self, failure: &StreamFailure)
        requires
            old(self).wf(),
        ensures
            final(self).wf(),
            final(self).same_choices(old(self)),
            final(self).failed(*failure),
    {
        self.stop();
        self.status = AudioStatus::Error(failure.message());
    }

    /// Takes over the outcome of starting passthrough, without a plugin.
    pub fn start(&mut self, outcome: Result<PassthroughStarted, StreamFailure>)
        requires
            old(self).wf(),
        ensures
            final(self).wf(),
            final(self).same_choices(old(self)),
            match outcome {
                Ok(started) => final(self).runs(
                    StreamHolder::Passthrough,
                    shown_device(started.input_name),
                    shown_device(started.output_name),
                    started.channels,
                ),
                Err(failure) => final(self).failed(failure),
            },
    {
        match outcome {
            Ok(started) => self.run(
                StreamHolder::Passthrough,
                device_name(started.input_name),
                device_name(started.output_name),
                started.channels,
            ),
            Err(failure) => self.fail(&failure),
        }
    }

    /// Takes over the outcome of starting an instrument: MIDI to audio, with
    /// no input device.
    pub fn start_with_plugin_instrument(
        &mut self,
        output_channels: usize,
        outcome: Result<Option<String>, StreamFailure>,
    )
        requires
            old(self).wf(),
        ensures
            final(self).wf(),
            final(self).same_choices(old(self)),
            match outcome {
                Ok(output_name) => final(self).runs(
                    StreamHolder::PluginOutput,
                    "(none — instrument mode)"@,
                    shown_device(output_name),
                    plugin_channels_of(output_channels),
                ),
                Err(failure) => final(self).failed(failure),
            },
    {
        match outcome {
            Ok(output_name) => self.run(
                StreamHolder::PluginOutput,
                owned("(none — instrument mode)"),
                device_name(output_name),
                plugin_channels(output_channels),
            ),
            Err(failure) => self.fail(&failure),
        }
    }

    /// Takes over the outcome of starting an effect: audio through the plugin.
    pub fn start_with_plugin_effect(
        &mut self,
        output_channels: usize,
        outcome: Result<(Option<String>, Option<String>), StreamFailure>,
    )
        requires
            old(self).wf(),
        ensures
            final(self).wf(),
            final(self).same_choices(old(self)),
            match outcome {
                Ok((input_name, output_name)) => final(self).runs(
                    StreamHolder::PluginInsert,
                    shown_device(input_name),
                    shown_device(output_name),
                    plugin_channels_of(output_channels),
                ),
                Err(failure) => final(self).failed(failure),
            },
    {
        match outcome {
            Ok((input_name, output_name)) => self.run(
                StreamHolder::PluginInsert,
                device_name(input_name),
                device_name(output_name),
                plugin_channels(output_channels),
            ),
            Err(failure) => self.fail(&failure),
        }
    }

    /// Stops whatever runs.
    pub fn stop(&mut self)
        requires
            old(self).wf(),
        ensures
            final(self).wf(),
            *final(self) == old(self).stopped(),
    {
        self.streams = None;
        self.status = AudioStatus::Stopped;
        self.running_info = None;
    }
}

// ── Laws of the engine ──────────────────────────────────────────────────────

/// The list of devices begins with the default one; every device whose name
/// can be read follows, in order.
pub proof fn law_devices_are_listed_behind_the_default(
    names: Seq<String>,
    found: Vec<Option<String>>,
)
    requires
        is_device_list(names, Some(found)),
    ensures
        names.len() == readable_names(found@).len() + 1,
        names[0]@ == "Default"@,
        forall|i: int|
            1 <= i < names.len() ==> #[trigger] names[i] == readable_names(found@)[i - 1],
{
    assert forall|i: int| 1 <= i < names.len() implies #[trigger] names[i] == readable_names(
        found@,
    )[i - 1] by {
        assert(names.skip(1)[i - 1] == names[i]);
    }
}

/// Where the devices could not be listed, only the default one is on the list.
pub proof fn law_default_device_is_always_listed(names: Seq<String>)
    requires
        is_device_list(names, None),
    ensures
        names.len() == 1,
        names[0]@ == "Default"@,
{
    assert(names.skip(1).len() == names.len() - 1);
}

/// The device that is picked by name is the first one of that name; one whose
/// name cannot be read is never picked.
pub proof fn law_first_device_of_a_name(
    listed: Seq<Option<String>>,
    target: Seq<char>,
    i: int,
    j: int,
)
    requires
        is_first_named(listed, target, i),
        0 <= j < listed.len(),
    ensures
        0 <= i < listed.len(),
        listed[i] is Some,
        (listed[i]->0)@ == target,
        listed[j] is Some && (listed[j]->0)@ == target ==> i <= j,
{
    if j < i {
        assert(!is_named(listed[j], target));
    }
}

/// A second of audio may wait between input and output, and 65536 samples at
/// least.
pub proof fn law_queue_holds_a_second(sample_rate: u32, channels: u16)
    ensures
        queue_samples(sample_rate, channels) >= sample_rate * channels,
        queue_samples(sample_rate, channels) >= 65536,
        queue_samples(sample_rate, channels) == sample_rate * channels || queue_samples(
            sample_rate,
            channels,
        ) == 65536,
{
}

/// A plugin plays on one channel or on two: on as many as it has, within that.
pub proof fn law_plugins_play_on_one_or_two_channels(channels: usize)
    ensures
        channels <= 1 ==> plugin_channels_of(channels) == 1,
        channels >= 2 ==> plugin_channels_of(channels) == 2,
{
}

/// A choice that is still on the list stays; one past its end becomes the last.
pub proof fn law_choices_stay_on_the_list(choice: usize, count: nat)
    ensures
        choice < count ==> clamped_choice(choice, count) == choice,
        0 < count <= choice ==> clamped_choice(choice, count) == count - 1,
        count == 0 ==> clamped_choice(choice, count) == choice,
{
}

/// The streams are opened with the chosen rate and buffer size.
pub proof fn law_plans_follow_the_choices(engine: AudioEngine, channels: u16)
    requires
        engine.wf(),
    ensures
        ({
            let plan = engine.plan_for(channels);
            &&& plan.channels == channels
            &&& plan.sample_rate == seq![44100u32, 48000u32, 88200u32, 96000u32, 192000u32][
                engine.selected_sample_rate_idx as int]
            &&& plan.buffer_size == seq![256u32, 64u32, 128u32, 256u32, 512u32, 1024u32, 2048u32][
                engine.selected_buffer_size_idx as int]
            &&& plan.queue_capacity >= plan.sample_rate * channels
            &&& plan.queue_capacity >= 65536
        }),
{
    assert(0 <= engine.rate() * channels <= 0xFFFF_FFFF * 0xFFFF) by (nonlinear_arith)
        requires
            0 <= engine.rate() <= 0xFFFF_FFFF,
            0 <= channels <= 0xFFFF,
    ;
}

/// Stopping lets go of the streams and of what is said of them, and keeps the
/// choices.
pub proof fn law_stopping_keeps_the_choices(engine: AudioEngine)
    ensures
        engine.stopped().status is Stopped,
        engine.stopped().streams is None,
        engine.stopped().running_info is None,
        engine.stopped().selected_input_idx == engine.selected_input_idx,
        engine.stopped().selected_output_idx == engine.selected_output_idx,
        engine.stopped().selected_sample_rate_idx == engine.selected_sample_rate_idx,
        engine.stopped().selected_buffer_size_idx == engine.selected_buffer_size_idx,
        engine.stopped().input_device_names == engine.input_device_names,
        engine.stopped().output_device_names == engine.output_device_names,
{
}

/// An engine that runs says on which devices, at which rate and buffer size
/// and on how many channels.
pub proof fn law_running_engine_says_what_runs(
    engine: AudioEngine,
    streams: StreamHolder,
    input: Seq<char>,
    output: Seq<char>,
    channels: u16,
)
    requires
        engine.wf(),
        engine.runs(streams, input, output, channels),
    ensures
        engine.status is Running,
        engine.streams == Some(streams),
        engine.running_info matches Some(info) && info.input_device@ == input
            && info.output_device@ == output && info.channels == channels && info.sample_rate
            == seq![44100u32, 48000u32, 88200u32, 96000u32, 192000u32][
            engine.selected_sample_rate_idx as int] && info.buffer_size@ == seq![
            "Default"@,
            "64"@,
            "128"@,
            "256"@,
            "512"@,
            "1024"@,
            "2048"@,
        ][engine.selected_buffer_size_idx as int],
{
}

/// An engine that could not start says why, and runs nothing.
pub proof fn law_failed_engine_says_why(engine: AudioEngine, reason: String)
    ensures
        engine.failed(StreamFailure::Device(reason)) ==> engine.streams is None && (
        engine.status matches AudioStatus::Error(m) && m@ == reason@),
        engine.failed(StreamFailure::InputConfig(reason)) ==> (
        engine.status matches AudioStatus::Error(m) && m@ == "Input config error: "@ + reason@),
        engine.failed(StreamFailure::OutputConfig(reason)) ==> (
        engine.status matches AudioStatus::Error(m) && m@ == "Output config error: "@ + reason@),
        engine.failed(StreamFailure::BuildInput(reason)) ==> (
        engine.status matches AudioStatus::Error(m) && m@ == "Failed to build input stream: "@
            + reason@),
        engine.failed(StreamFailure::BuildOutput(reason)) ==> (
        engine.status matches AudioStatus::Error(m) && m@ == "Failed to build output stream: "@
            + reason@),
        engine.failed(StreamFailure::PlayOutput(reason)) ==> (
        engine.status matches AudioStatus::Error(m) && m@ == "Failed to play output stream: "@
            + reason@),
{
}

/// Listing the devices anew brings the choices back onto the lists, and leaves
/// everything else as it was.
pub proof fn law_refreshing_keeps_what_runs(
    before: AudioEngine,
    inputs: Option<Vec<Option<String>>>,
    outputs: Option<Vec<Option<String>>>,
    after: AudioEngine,
)
    requires
        AudioEngine::is_refreshed(before, inputs, outputs, after),
    ensures
        is_device_list(after.input_device_names@, inputs),
        is_device_list(after.output_device_names@, outputs),
        after.selected_input_idx < after.input_device_names@.len(),
        after.selected_output_idx < after.output_device_names@.len(),
        before.selected_input_idx < after.input_device_names@.len() ==> after.selected_input_idx
            == before.selected_input_idx,
        before.selected_output_idx < after.output_device_names@.len() ==> after.selected_output_idx
            == before.selected_output_idx,
        after.status == before.status,
        after.streams == before.streams,
        after.running_info == before.running_info,
        after.selected_sample_rate_idx == before.selected_sample_rate_idx,
        after.selected_buffer_size_idx == before.selected_buffer_size_idx,
{
}

/// Engines with the same choices have the same devices, rate and buffer.
pub proof fn law_same_choices_are_the_same(a: AudioEngine, b: AudioEngine)
    requires
        a.same_choices(&b),
    ensures
        a.input_device_names == b.input_device_names,
        a.output_device_names == b.output_device_names,
        a.selected_input_idx == b.selected_input_idx,
        a.selected_output_idx == b.selected_output_idx,
        a.selected_sample_rate_idx == b.selected_sample_rate_idx,
        a.selected_buffer_size_idx == b.selected_buffer_size_idx,
        a.plan_for(2) == b.plan_for(2),
{
}

/// A device is shown under its name, or as unknown.
pub proof fn law_devices_are_shown_by_name(name: String)
    ensures
        shown_device(Some(name)) == name@,
        shown_device(None) == "Unknown"@,
{
}

} // verus!

//! The audio side of a plugin: its port layout and the blocks that go through
//! it.

use crate::plugin_host::PluginMode;
use crate::samples::{
    constant, deinterleave, fill, filled, interleave, interleaved, law_frames_hold_the_channels,
    planar, resize, resized,
};
use vstd::arithmetic::div_mod::{lemma_fundamental_div_mod, lemma_fundamental_div_mod_converse};
use vstd::prelude::*;
use vstd::utf8::{decode_utf8, valid_utf8};

verus! {

// ── Port configuration ──────────────────────────────────────────────────────

/// One audio port, as the host uses it.
#[derive(Debug, Clone)]
pub struct PortInfo {
    pub channel_count: u16,
    pub name: String,
}

/// The ports of one direction, and which of them is the main one.
#[derive(Debug, Clone)]
pub struct PortConfig {
    pub ports: Vec<PortInfo>,
    pub main_port_index: u32,
}

/// A port as contracts speak of it: its channel count and its name.
pub struct Port {
    pub channel_count: u16,
    pub name: Seq<char>,
}

impl View for PortInfo {
    type V = Port;

    open spec fn view(&self) -> Port {
        Port { channel_count: self.channel_count, name: self.name@ }
    }
}

/// The port list as contracts speak of it.
pub open spec fn port_views(ports: Seq<PortInfo>) -> Seq<Port> {
    ports.map_values(|p: PortInfo| p@)
}

/// The channels of all ports together.
pub open spec fn channel_total(ports: Seq<PortInfo>) -> nat
    decreases ports.len(),
{
    if ports.len() == 0 {
        0
    } else {
        channel_total(ports.drop_last()) + ports.last().channel_count as nat
    }
}

impl PortConfig {
    /// Whether the main port is one of the ports.
    pub open spec fn has_main_port(&self) -> bool {
        self.main_port_index < self.ports@.len()
    }

    /// No ports at all.
    pub fn empty() -> (r: Self)
        ensures
            r.ports@ == Seq::<PortInfo>::empty(),
            r.main_port_index == 0,
    {
        PortConfig { ports: Vec::new(), main_port_index: 0 }
    }

    /// One stereo port called `Default`.
    pub fn default_stereo() -> (r: Self)
        ensures
            port_views(r.ports@) == seq![Port { channel_count: 2, name: "Default"@ }],
            r.main_port_index == 0,
    {
        let mut ports: Vec<PortInfo> = Vec::new();
        ports.push(PortInfo { channel_count: 2, name: crate::text::owned("Default") });
        assert(port_views(ports@) =~= seq![Port { channel_count: 2, name: "Default"@ }]);
        PortConfig { ports, main_port_index: 0 }
    }

    /// The main port.
    pub fn main_port(&self) -> (r: &PortInfo)
        requires
            self.has_main_port(),
        ensures
            *r == self.ports@[self.main_port_index as int],
    {
        &self.ports[self.main_port_index as usize]
    }

    /// The channels of all ports together.
    pub fn total_channel_count(&self) -> (r: usize)
        requires
            channel_total(self.ports@) <= usize::MAX,
        ensures
            r == channel_total(self.ports@),
    {
        let mut total: usize = 0;
        let mut i: usize = 0;
        while i < self.ports.len()
            invariant
                i <= self.ports.len(),
                channel_total(self.ports@) <= usize::MAX,
                total == channel_total(self.ports@.take(i as int)),
            decreases self.ports.len() - i,
        {
            proof {
                lemma_channel_total_grows(self.ports@, i + 1);
                assert(self.ports@.take(i + 1).drop_last() =~= self.ports@.take(i as int));
            }
            total = total + self.ports[i].channel_count as usize;
            i = i + 1;
        }
        assert(self.ports@.take(self.ports@.len() as int) =~= self.ports@);
        total
    }
}

proof fn lemma_channel_total_grows(ports: Seq<PortInfo>, n: int)
    requires
        0 <= n <= ports.len(),
    ensures
        channel_total(ports.take(n)) <= channel_total(ports),
    decreases ports.len() - n,
{
    if n == ports.len() {
        assert(ports.take(n) =~= ports);
    } else {
        lemma_channel_total_grows(ports, n + 1);
        assert(ports.take(n + 1).drop_last() =~= ports.take(n));
    }
}

/// The port types that the host treats specially, and all others.
#[derive(Debug, Clone, Copy, PartialEq, Eq, Structural)]
pub enum PortType {
    Mono,
    Stereo,
    Other,
}

/// A port as the plugin reports it.
#[derive(Debug, Clone)]
pub struct ReportedPort {
    /// The declared type, if the plugin declares one.
    pub port_type: Option<PortType>,
    pub channel_count: u32,
    /// Whether the plugin marks this port as its main one.
    pub is_main: bool,
    /// The name as it came, in bytes that should be UTF-8.
    pub name: Vec<u8>,
}

/// Bytes read as UTF-8, with a replacement character for what is not.
pub uninterp spec fn utf8_lossy(bytes: Seq<u8>) -> Seq<char>;

/// `String::from_utf8_lossy`: depends on the bytes alone, and gives the very
/// text that they encode where they are valid UTF-8.
#[verifier::external_body]
fn text_from_utf8_lossy(bytes: &[u8]) -> (r: String)
    ensures
        r@ == utf8_lossy(bytes@),
        valid_utf8(bytes@) ==> r@ == decode_utf8(bytes@),
{
    String::from_utf8_lossy(bytes).into_owned()
}

/// The port type that a channel count stands for, if it stands for one.
pub open spec fn type_for_channels(channel_count: u32) -> Option<PortType> {
    if channel_count == 1 {
        Some(PortType::Mono)
    } else if channel_count == 2 {
        Some(PortType::Stereo)
    } else {
        None
    }
}

/// The channels that the host gives a port: those of its type where it is
/// mono or stereo, declared or by its count, else its count in 16 bits.
pub open spec fn effective_channels(p: ReportedPort) -> u16 {
    let port_type = match p.port_type {
        Some(t) => Some(t),
        None => type_for_channels(p.channel_count),
    };
    match port_type {
        Some(PortType::Mono) => 1,
        Some(PortType::Stereo) => 2,
        _ => (p.channel_count % 0x1_0000) as u16,
    }
}

/// The ports that could be read, in the order in which they were reported.
pub open spec fn readable_ports(reported: Seq<Option<ReportedPort>>) -> Seq<Port>
    decreases reported.len(),
{
    if reported.len() == 0 {
        Seq::empty()
    } else {
        let earlier = readable_ports(reported.drop_last());
        match reported.last() {
            Some(p) => earlier.push(
                Port { channel_count: effective_channels(p), name: utf8_lossy(p.name@) },
            ),
            None => earlier,
        }
    }
}

/// The last reported position that is marked as the main port.
pub open spec fn last_main(reported: Seq<Option<ReportedPort>>) -> Option<int>
    decreases reported.len(),
{
    if reported.len() == 0 {
        None
    } else if reported.last() matches Some(p) && p.is_main {
        Some(reported.len() - 1)
    } else {
        last_main(reported.drop_last())
    }
}

/// The layout of a plugin that reports no ports: nothing in, stereo out.
pub open spec fn is_default_layout(config: PortConfig, is_input: bool) -> bool {
    &&& config.main_port_index == 0
    &&& port_views(config.ports@) == if is_input {
        Seq::empty()
    } else {
        seq![Port { channel_count: 2, name: "Default"@ }]
    }
}

fn channels_of(p: &ReportedPort) -> (r: u16)
    ensures
        r == effective_channels(*p),
{
    let port_type: Option<PortType> = match p.port_type {
        Some(t) => Some(t),
        None => if p.channel_count == 1 {
            Some(PortType::Mono)
        } else if p.channel_count == 2 {
            Some(PortType::Stereo)
        } else {
            None
        },
    };
    match port_type {
        Some(PortType::Mono) => 1,
        Some(PortType::Stereo) => 2,
        _ => {
            let n: u32 = p.channel_count;
            assert(n as u16 == n % 0x1_0000) by (bit_vector);
            #[verifier::truncate] (n as u16)
        },
    }
}

fn default_layout(is_input: bool) -> (r: PortConfig)
    ensures
        is_default_layout(r, is_input),
{
    if is_input {
        let r = PortConfig::empty();
        assert(port_views(r.ports@) =~= Seq::empty());
        r
    } else {
        PortConfig::default_stereo()
    }
}

/// The port layout of one direction, from what the plugin reports.
///
/// `reported` is `None` where the plugin does not describe its audio ports;
/// an item is `None` where that port could not be read.
pub fn query_ports(reported: &Option<Vec<Option<ReportedPort>>>, is_input: bool) -> (r: PortConfig)
    requires
        *reported matches Some(list) ==> list@.len() <= u32::MAX,
    ensures
        match *reported {
            None => is_default_layout(r, is_input),
            Some(list) => if readable_ports(list@).len() == 0 {
                is_default_layout(r, is_input)
            } else {
                &&& port_views(r.ports@) == readable_ports(list@)
                &&& r.main_port_index == last_main(list@).unwrap_or(0)
            },
        },
{
    let list: &Vec<Option<ReportedPort>> = match reported {
        Some(list) => list,
        None => {
            return default_layout(is_input);
        },
    };
    let mut ports: Vec<PortInfo> = Vec::new();
    let mut main_idx: Option<u32> = None;
    let mut i: usize = 0;
    assert(list@.take(0) =~= Seq::empty());
    assert(port_views(ports@) =~= Seq::empty());
    while i < list.len()
        invariant
            i <= list.len(),
            list@.len() <= u32::MAX,
            port_views(ports@) == readable_ports(list@.take(i as int)),
            match main_idx {
                Some(m) => last_main(list@.take(i as int)) == Some(m as int),
                None => last_main(list@.take(i as int)) is None,
            },
        decreases list.len() - i,
    {
        let ghost seen = list@.take(i + 1);
        let ghost earlier = ports@;
        assert(seen.drop_last() =~= list@.take(i as int));
        assert(seen.last() == list@[i as int]);
        match &list[i] {
            Some(info) => {
                if info.is_main {
                    main_idx = Some(i as u32);
                }
                let port = PortInfo {
                    channel_count: channels_of(info),
                    name: text_from_utf8_lossy(info.name.as_slice()),
                };
                let ghost added = port@;
                ports.push(port);
                assert(port_views(ports@) =~= port_views(earlier).push(added));
            },
            None => {},
        }
        i = i + 1;
    }
    assert(list@.take(list@.len() as int) =~= list@);
    if ports.len() == 0 {
        return default_layout(is_input);
    }
    let main_port_index: u32 = match main_idx {
        Some(m) => m,
        None => 0,
    };
    PortConfig { ports, main_port_index }
}

// ── Audio configuration ─────────────────────────────────────────────────────

/// How a plugin is activated.
#[derive(Debug, Clone, Copy)]
pub struct PluginAudioConfig {
    pub sample_rate: u32,
    pub min_buffer_size: u32,
    pub max_buffer_size: u32,
    pub mode: PluginMode,
}

// ── Plugin audio processor ──────────────────────────────────────────────────

/// Where the plugin's own processor stands.
#[derive(Debug, Clone, Copy, PartialEq, Eq, Structural)]
pub enum ProcessorPhase {
    /// Not started yet: the first block starts it.
    Stopped,
    /// Started, and processing blocks.
    Started,
    /// It refused to start; every block from then on is silent.
    Failed,
}

/// The host's side of a plugin on the audio thread: the per-channel blocks
/// that the plugin reads and writes, and how they meet the device's
/// interleaved ones.
pub struct PluginAudioProcessor<T> {
    pub phase: ProcessorPhase,
    pub input_port_channels: Vec<Vec<T>>,
    pub output_port_channels: Vec<Vec<T>>,
    pub muxed: Vec<T>,
    pub output_channel_count: usize,
    pub input_port_config: PortConfig,
    pub output_port_config: PortConfig,
    pub frame_capacity: usize,
    pub steady_counter: u64,
    pub mode: PluginMode,
    pub silence: T,
}

/// Every port has a block, which holds `capacity` frames of its channels.
pub open spec fn blocks_fit<T>(
    blocks: Seq<Vec<T>>,
    ports: Seq<PortInfo>,
    capacity: nat,
) -> bool {
    &&& blocks.len() == ports.len()
    &&& forall|i: int|
        0 <= i < blocks.len() ==> (#[trigger] blocks[i])@.len() == capacity
            * ports[i].channel_count
}

/// Every block holds silence only.
pub open spec fn all_silent<T>(blocks: Seq<Vec<T>>, silence: T) -> bool {
    forall|i: int|
        0 <= i < blocks.len() ==> (#[trigger] blocks[i])@ == constant(blocks[i]@.len(), silence)
}

/// The blocks keep their number and their sizes.
pub open spec fn same_sizes<T>(a: Seq<Vec<T>>, b: Seq<Vec<T>>) -> bool {
    &&& a.len() == b.len()
    &&& forall|i: int| 0 <= i < a.len() ==> (#[trigger] a[i])@.len() == b[i]@.len()
}

/// The blocks of `capacity` frames fit in memory's address space.
pub open spec fn sizes_fit(ports: Seq<PortInfo>, capacity: nat) -> bool {
    forall|i: int|
        0 <= i < ports.len() ==> capacity * (#[trigger] ports[i]).channel_count <= usize::MAX
}

/// The device channels that a plugin with these output ports drives.
pub open spec fn driven_channels(config: PortConfig) -> int {
    if config.ports@.len() == 0 {
        2
    } else if config.ports@[config.main_port_index as int].channel_count == 0 {
        1
    } else {
        config.ports@[config.main_port_index as int].channel_count as int
    }
}

/// The frames of a device block of `len` samples, as far as the plugin takes
/// them at once.
pub open spec fn block_frames(len: nat, channels: nat, capacity: nat) -> nat {
    if len / channels <= capacity {
        len / channels
    } else {
        capacity
    }
}

fn silence_all<T: Copy>(blocks: &mut Vec<Vec<T>>, silence: T)
    ensures
        all_silent(final(blocks)@, silence),
        same_sizes(final(blocks)@, old(blocks)@),
{
    let mut i: usize = 0;
    while i < blocks.len()
        invariant
            i <= blocks@.len(),
            same_sizes(blocks@, old(blocks)@),
            forall|j: int|
                0 <= j < i ==> (#[trigger] blocks@[j])@ == constant(blocks@[j]@.len(), silence),
        decreases blocks.len() - i,
    {
        fill(blocks[i].as_mut_slice(), silence);
        i = i + 1;
    }
}

fn resize_all<T: Copy>(
    blocks: &mut Vec<Vec<T>>,
    ports: &Vec<PortInfo>,
    capacity: usize,
    silence: T,
)
    requires
        old(blocks)@.len() == ports@.len(),
        sizes_fit(ports@, capacity as nat),
    ensures
        blocks_fit(final(blocks)@, ports@, capacity as nat),
        forall|i: int|
            0 <= i < ports@.len() ==> (#[trigger] final(blocks)@[i])@ == resized(
                old(blocks)@[i]@,
                (capacity * ports@[i].channel_count) as nat,
                silence,
            ),
{
    let mut i: usize = 0;
    while i < blocks.len()
        invariant
            i <= blocks@.len(),
            blocks@.len() == ports@.len(),
            old(blocks)@.len() == ports@.len(),
            sizes_fit(ports@, capacity as nat),
            forall|j: int|
                0 <= j < i ==> (#[trigger] blocks@[j])@ == resized(
                    old(blocks)@[j]@,
                    (capacity * ports@[j].channel_count) as nat,
                    silence,
                ),
            forall|j: int| i <= j < blocks@.len() ==> #[trigger] blocks@[j] == old(blocks)@[j],
        decreases blocks.len() - i,
    {
        let channels: usize = ports[i].channel_count as usize;
        assert(capacity * ports@[i as int].channel_count <= usize::MAX);
        assert(0 <= capacity * channels) by (nonlinear_arith)
            requires
                0 <= capacity,
                0 <= channels,
        ;
        resize(&mut blocks[i], capacity * channels, silence);
        i = i + 1;
    }
}

fn new_blocks<T: Copy>(ports: &Vec<PortInfo>, capacity: usize, silence: T) -> (r: Vec<Vec<T>>)
    requires
        sizes_fit(ports@, capacity as nat),
    ensures
        blocks_fit(r@, ports@, capacity as nat),
        all_silent(r@, silence),
{
    let mut out: Vec<Vec<T>> = Vec::new();
    let mut i: usize = 0;
    while i < ports.len()
        invariant
            i <= ports@.len(),
            out@.len() == i,
            sizes_fit(ports@, capacity as nat),
            forall|j: int|
                0 <= j < i ==> (#[trigger] out@[j])@ == constant(
                    (capacity * ports@[j].channel_count) as nat,
                    silence,
                ) && out@[j]@.len() == capacity * ports@[j].channel_count,
        decreases ports.len() - i,
    {
        let channels: usize = ports[i].channel_count as usize;
        assert(capacity * ports@[i as int].channel_count <= usize::MAX);
        assert(0 <= capacity * channels) by (nonlinear_arith)
            requires
                0 <= capacity,
                0 <= channels,
        ;
        out.push(filled(capacity * channels, silence));
        i = i + 1;
    }
    out
}

impl<T: Copy> PluginAudioProcessor<T> {
    /// The blocks match the ports, and the device channels match the main
    /// output port.
    pub open spec fn wf(&self) -> bool {
        &&& blocks_fit(
            self.input_port_channels@,
            self.input_port_config.ports@,
            self.frame_capacity as nat,
        )
        &&& blocks_fit(
            self.output_port_channels@,
            self.output_port_config.ports@,
            self.frame_capacity as nat,
        )
        &&& self.output_port_config.ports@.len() > 0 ==> self.output_port_config.has_main_port()
        &&& self.output_channel_count == driven_channels(self.output_port_config)
    }

    /// Everything but the blocks is as in `other`.
    pub open spec fn same_setup(&self, other: &Self) -> bool {
        &&& self.phase == other.phase
        &&& self.muxed == other.muxed
        &&& self.output_channel_count == other.output_channel_count
        &&& self.input_port_config == other.input_port_config
        &&& self.output_port_config == other.output_port_config
        &&& self.frame_capacity == other.frame_capacity
        &&& self.steady_counter == other.steady_counter
        &&& self.mode == other.mode
        &&& self.silence == other.silence
    }

    /// Sets up the blocks for an activated plugin, with all of them silent.
    pub fn new(
        config: &PluginAudioConfig,
        input_port_config: PortConfig,
        output_port_config: PortConfig,
        silence: T,
    ) -> (r: Self)
        requires
            output_port_config.ports@.len() > 0 ==> output_port_config.has_main_port(),
            sizes_fit(input_port_config.ports@, config.max_buffer_size as nat),
            sizes_fit(output_port_config.ports@, config.max_buffer_size as nat),
            config.max_buffer_size <= usize::MAX,
            config.max_buffer_size * driven_channels(output_port_config) <= usize::MAX,
            config.max_buffer_size * 2 <= usize::MAX,
        ensures
            r.wf(),
            r.phase == ProcessorPhase::Stopped,
            all_silent(r.input_port_channels@, silence),
            all_silent(r.output_port_channels@, silence),
            r.muxed@ == constant(
                (config.max_buffer_size * (if driven_channels(output_port_config) > 2 {
                    driven_channels(output_port_config)
                } else {
                    2
                })) as nat,
                silence,
            ),
            r.input_port_config == input_port_config,
            r.output_port_config == output_port_config,
            r.frame_capacity == config.max_buffer_size,
            r.steady_counter == 0,
            r.mode == config.mode,
            r.silence == silence,
    {
        let frame_capacity: usize = config.max_buffer_size as usize;
        let channels: usize = if output_port_config.ports.len() == 0 {
            2
        } else {
            output_port_config.main_port().channel_count as usize
        };
        let input_port_channels: Vec<Vec<T>> = new_blocks(
            &input_port_config.ports,
            frame_capacity,
            silence,
        );
        let output_port_channels: Vec<Vec<T>> = new_blocks(
            &output_port_config.ports,
            frame_capacity,
            silence,
        );
        let mux_channels: usize = if channels > 2 {
            channels
        } else {
            2
        };
        assert(0 <= frame_capacity * mux_channels) by (nonlinear_arith)
            requires
                0 <= frame_capacity,
                0 <= mux_channels,
        ;
        let muxed: Vec<T> = filled(frame_capacity * mux_channels, silence);
        let output_channel_count: usize = if channels == 0 {
            1
        } else {
            channels
        };
        PluginAudioProcessor {
            phase: ProcessorPhase::Stopped,
            input_port_channels,
            output_port_channels,
            muxed,
            output_channel_count,
            input_port_config,
            output_port_config,
            frame_capacity,
            steady_counter: 0,
            mode: config.mode,
            silence,
        }
    }

    /// The number of output channels the plugin will produce.
    pub fn output_channel_count(&self) -> (r: usize)
        ensures
            r == self.output_channel_count,
    {
        self.output_channel_count
    }

    /// Whether the plugin's processor has to be started before this block.
    pub fn needs_start(&self) -> (r: bool)
        ensures
            r == (self.phase == ProcessorPhase::Stopped),
    {
        self.phase == ProcessorPhase::Stopped
    }

    /// Notes whether the plugin's processor started.
    pub fn start_finished(&mut self, started: bool)
        ensures
            final(self).phase == (if started {
                ProcessorPhase::Started
            } else {
                ProcessorPhase::Failed
            }),
            final(self).same_setup(&PluginAudioProcessor { phase: final(self).phase, ..*old(self) }),
            final(self).input_port_channels == old(self).input_port_channels,
            final(self).output_port_channels == old(self).output_port_channels,
    {
        self.phase = if started {
            ProcessorPhase::Started
        } else {
            ProcessorPhase::Failed
        };
    }

    /// Makes room for `needed` frames.
    ///
    /// Where there is room already, every block is made silent; otherwise the
    /// blocks grow and keep what they hold.
    pub fn ensure_capacity(&mut self, needed: usize)
        requires
            old(self).wf(),
            sizes_fit(old(self).input_port_config.ports@, needed as nat),
            sizes_fit(old(self).output_port_config.ports@, needed as nat),
            needed * old(self).output_channel_count <= usize::MAX,
        ensures
            final(self).wf(),
            needed <= old(self).frame_capacity ==> {
                &&& final(self).same_setup(old(self))
                &&& all_silent(final(self).input_port_channels@, old(self).silence)
                &&& all_silent(final(self).output_port_channels@, old(self).silence)
                &&& same_sizes(final(self).input_port_channels@, old(self).input_port_channels@)
                &&& same_sizes(final(self).output_port_channels@, old(self).output_port_channels@)
            },
            needed > old(self).frame_capacity ==> {
                &&& final(self).same_setup(
                    &PluginAudioProcessor {
                        frame_capacity: needed,
                        muxed: final(self).muxed,
                        ..*old(self)
                    },
                )
                &&& final(self).muxed@ == resized(
                    old(self).muxed@,
                    (needed * old(self).output_channel_count) as nat,
                    old(self).silence,
                )
                &&& forall|i: int|
                    0 <= i < old(self).input_port_channels@.len() ==> (
                    #[trigger] final(self).input_port_channels@[i])@ == resized(
                        old(self).input_port_channels@[i]@,
                        (needed * old(self).input_port_config.ports@[i].channel_count) as nat,
                        old(self).silence,
                    )
                &&& forall|i: int|
                    0 <= i < old(self).output_port_channels@.len() ==> (
                    #[trigger] final(self).output_port_channels@[i])@ == resized(
                        old(self).output_port_channels@[i]@,
                        (needed * old(self).output_port_config.ports@[i].channel_count) as nat,
                        old(self).silence,
                    )
            },
    {
        let silence: T = self.silence;
        if needed <= self.frame_capacity {
            silence_all(&mut self.output_port_channels, silence);
            silence_all(&mut self.input_port_channels, silence);
            return;
        }
        self.frame_capacity = needed;
        resize_all(&mut self.input_port_channels, &self.input_port_config.ports, needed, silence);
        resize_all(
            &mut self.output_port_channels,
            &self.output_port_config.ports,
            needed,
            silence,
        );
        assert(0 <= needed * self.output_channel_count) by (nonlinear_arith)
            requires
                0 <= needed,
                0 <= self.output_channel_count,
        ;
        resize(&mut self.muxed, needed * self.output_channel_count, silence);
    }

    /// Whether a block carries input for the plugin.
    pub open spec fn takes_input(&self, input: Seq<T>) -> bool {
        &&& self.mode == PluginMode::Effect
        &&& input.len() > 0
        &&& self.input_port_config.ports@.len() > 0
    }

    /// Prepares a device block: clears the plugin's blocks and, for an effect,
    /// spreads the captured samples over the main input port.
    ///
    /// `input_data` may be empty for instrument mode. Returns the number of
    /// frames that the plugin has to process; where it is zero nothing has
    /// happened.
    pub fn process(&mut self, input_data: &[T], output_len: usize) -> (frames: usize)
        requires
            old(self).wf(),
            old(self).takes_input(input_data@) ==> old(self).input_port_config.has_main_port(),
        ensures
            frames == block_frames(
                output_len as nat,
                old(self).output_channel_count as nat,
                old(self).frame_capacity as nat,
            ),
            frames == 0 ==> *final(self) == *old(self),
            frames > 0 ==> {
                let main = old(self).input_port_config.main_port_index as int;
                let width = input_data@.len() as int / frames as int;
                let wanted = old(self).input_port_config.ports@[main].channel_count as int;
                &&& final(self).wf()
                &&& final(self).same_setup(old(self))
                &&& all_silent(final(self).output_port_channels@, old(self).silence)
                &&& same_sizes(final(self).output_port_channels@, old(self).output_port_channels@)
                &&& same_sizes(final(self).input_port_channels@, old(self).input_port_channels@)
                &&& forall|i: int|
                    0 <= i < old(self).input_port_channels@.len() ==> (
                    #[trigger] final(self).input_port_channels@[i])@ == (if i == main
                        && old(self).takes_input(input_data@) {
                        planar(
                            input_data@,
                            width,
                            if wanted <= width {
                                wanted
                            } else {
                                width
                            },
                            old(self).frame_capacity as int,
                            frames as int,
                            old(self).input_port_channels@[i]@.len(),
                            old(self).silence,
                        )
                    } else {
                        constant(old(self).input_port_channels@[i]@.len(), old(self).silence)
                    })
            },
    {
        let device_frames: usize = output_len / self.output_channel_count;
        let frames: usize = if device_frames <= self.frame_capacity {
            device_frames
        } else {
            self.frame_capacity
        };
        if frames == 0 {
            return 0;
        }
        proof {
            lemma_smaller_block_fits(
                self.input_port_channels@,
                self.input_port_config.ports@,
                self.frame_capacity as nat,
                frames as nat,
            );
            lemma_smaller_block_fits(
                self.output_port_channels@,
                self.output_port_config.ports@,
                self.frame_capacity as nat,
                frames as nat,
            );
            let n = self.output_channel_count as int;
            lemma_fundamental_div_mod(output_len as int, n);
            assert(frames * n <= output_len) by (nonlinear_arith)
                requires
                    frames <= output_len as int / n,
                    output_len == n * (output_len as int / n) + output_len as int % n,
                    0 <= output_len as int % n,
                    0 < n,
            ;
        }
        self.ensure_capacity(frames);
        let taken: bool = match self.mode {
            PluginMode::Effect => input_data.len() > 0 && self.input_port_config.ports.len() > 0,
            PluginMode::Instrument => false,
        };
        if taken {
            let main: usize = self.input_port_config.main_port_index as usize;
            let wanted: usize = self.input_port_config.main_port().channel_count as usize;
            let capacity: usize = self.frame_capacity;
            let silence: T = self.silence;
            let width: usize = input_data.len() / frames;
            let held: usize = self.input_port_channels[main].len() / capacity;
            proof {
                assert(self.input_port_channels@[main as int]@.len() == wanted * capacity)
                    by (nonlinear_arith)
                    requires
                        self.input_port_channels@[main as int]@.len() == capacity * wanted,
                ;
                lemma_fundamental_div_mod_converse(
                    self.input_port_channels@[main as int]@.len() as int,
                    capacity as int,
                    wanted as int,
                    0,
                );
            }
            let narrower: usize = if wanted <= width {
                wanted
            } else {
                width
            };
            let channels: usize = if narrower <= held {
                narrower
            } else {
                held
            };
            proof {
                let len = input_data@.len() as int;
                lemma_fundamental_div_mod(len, frames as int);
                assert(frames * width <= len);
                assert(channels * capacity <= wanted * capacity) by (nonlinear_arith)
                    requires
                        channels <= wanted,
                        0 < capacity,
                ;
            }
            deinterleave(
                input_data,
                width,
                channels,
                capacity,
                frames,
                &mut self.input_port_channels[main],
                silence,
            );
        }
        frames
    }

    /// A device block once the plugin's main output is written into it: a
    /// plugin without output ports leaves all of it silent.
    pub open spec fn written(&self, output: Seq<T>, frames: int) -> Seq<T> {
        let main = self.output_port_config.main_port_index as int;
        if self.output_port_config.ports@.len() == 0 {
            constant(output.len(), self.silence)
        } else {
            interleaved(
                self.output_port_channels@[main]@,
                self.output_port_config.ports@[main].channel_count as int,
                self.frame_capacity as int,
                frames,
                self.output_channel_count as int,
                output,
                self.silence,
            )
        }
    }

    /// Writes the plugin's main output, interleaved, into a device block.
    ///
    /// A plugin without output ports leaves the whole block silent. Samples
    /// behind the last frame are left as they are.
    pub fn write_output(&self, output: &mut [T], frames: usize)
        requires
            self.wf(),
            frames <= self.frame_capacity,
            frames * self.output_channel_count <= usize::MAX,
        ensures
            final(output)@ == self.written(old(output)@, frames as int),
    {
        if self.output_port_config.ports.len() == 0 {
            fill(output, self.silence);
            return;
        }
        let main: usize = self.output_port_config.main_port_index as usize;
        let channels: usize = self.output_port_config.main_port().channel_count as usize;
        proof {
            assert(self.output_port_channels@[main as int]@.len() == channels
                * self.frame_capacity) by (nonlinear_arith)
                requires
                    self.output_port_channels@[main as int]@.len() == self.frame_capacity
                        * channels,
            ;
        }
        interleave(
            &self.output_port_channels[main],
            channels,
            self.frame_capacity,
            frames,
            self.output_channel_count,
            output,
            self.silence,
        );
    }

    /// Ends a block that the plugin has processed: counts its frames and
    /// writes the plugin's output into the device block.
    pub fn finish(&mut self, output: &mut [T], frames: usize)
        requires
            old(self).wf(),
            old(self).phase == ProcessorPhase::Started,
            frames <= old(self).frame_capacity,
            frames * old(self).output_channel_count <= usize::MAX,
            old(self).steady_counter + frames <= u64::MAX,
        ensures
            final(self).wf(),
            final(self).steady_counter == old(self).steady_counter + frames,
            final(self).same_setup(
                &PluginAudioProcessor {
                    steady_counter: final(self).steady_counter,
                    ..*old(self)
                },
            ),
            final(self).input_port_channels == old(self).input_port_channels,
            final(self).output_port_channels == old(self).output_port_channels,
            final(output)@ == old(self).written(old(output)@, frames as int),
    {
        self.steady_counter = self.steady_counter + frames as u64;
        self.write_output(output, frames);
    }

    /// Ends a block, whether or not the plugin has processed it. One that it
    /// has not is silent, and does not count; nor does any block of a plugin
    /// that is not started.
    pub fn end_block(&mut self, output: &mut [T], frames: usize, processed: bool)
        requires
            old(self).wf(),
            frames <= old(self).frame_capacity,
            frames * old(self).output_channel_count <= usize::MAX,
            old(self).steady_counter + frames <= u64::MAX,
        ensures
            final(self).wf(),
            if processed && old(self).phase == ProcessorPhase::Started {
                &&& final(self).steady_counter == old(self).steady_counter + frames
                &&& final(self).same_setup(
                    &PluginAudioProcessor {
                        steady_counter: final(self).steady_counter,
                        ..*old(self)
                    },
                )
                &&& final(self).input_port_channels == old(self).input_port_channels
                &&& final(self).output_port_channels == old(self).output_port_channels
                &&& final(output)@ == old(self).written(old(output)@, frames as int)
            } else {
                &&& *final(self) == *old(self)
                &&& final(output)@ == constant(old(output)@.len(), old(self).silence)
            },
    {
        if processed && self.phase == ProcessorPhase::Started {
            self.finish(output, frames);
        } else {
            fill(output, self.silence);
        }
    }
}

proof fn lemma_smaller_block_fits<T>(
    blocks: Seq<Vec<T>>,
    ports: Seq<PortInfo>,
    capacity: nat,
    needed: nat,
)
    requires
        blocks_fit(blocks, ports, capacity),
        needed <= capacity,
    ensures
        sizes_fit(ports, needed),
{
    assert forall|i: int| 0 <= i < ports.len() implies needed * (#[trigger] ports[i]).channel_count
        <= usize::MAX by {
        assert(blocks[i].len() == capacity * ports[i].channel_count);
        assert(needed * ports[i].channel_count <= capacity * ports[i].channel_count)
            by (nonlinear_arith)
            requires
                needed <= capacity,
        ;
    }
}

// ── Laws of ports and blocks ────────────────────────────────────────────────

/// A port that is mono or stereo, by its type or else by its count, has one
/// channel or two; any other has as many as it says, in 16 bits.
pub proof fn law_ports_have_the_channels_of_their_type(port: ReportedPort)
    ensures
        port.port_type == Some(PortType::Mono) ==> effective_channels(port) == 1,
        port.port_type == Some(PortType::Stereo) ==> effective_channels(port) == 2,
        port.port_type is None || port.port_type == Some(PortType::Other) ==> effective_channels(
            port,
        ) == port.channel_count % 0x1_0000,
{
}

/// Every port that can be read is listed, once and in order.
pub proof fn law_ports_are_listed_in_order(
    a: Seq<Option<ReportedPort>>,
    b: Seq<Option<ReportedPort>>,
    port: ReportedPort,
)
    ensures
        readable_ports(a + b) == readable_ports(a) + readable_ports(b),
        readable_ports(seq![None::<ReportedPort>]).len() == 0,
        readable_ports(seq![Some(port)]) == seq![
            Port { channel_count: effective_channels(port), name: utf8_lossy(port.name@) },
        ],
    decreases b.len(),
{
    reveal_with_fuel(readable_ports, 2);
    assert(seq![None::<ReportedPort>].drop_last() =~= Seq::<Option<ReportedPort>>::empty());
    assert(seq![Some(port)].drop_last() =~= Seq::<Option<ReportedPort>>::empty());
    assert(readable_ports(seq![Some(port)]) =~= seq![
        Port { channel_count: effective_channels(port), name: utf8_lossy(port.name@) },
    ]);
    if b.len() == 0 {
        assert(a + b =~= a);
        assert(readable_ports(a) + readable_ports(b) =~= readable_ports(a));
    } else {
        law_ports_are_listed_in_order(a, b.drop_last(), port);
        assert((a + b).drop_last() =~= a + b.drop_last());
        assert((a + b).last() == b.last());
        assert(readable_ports(a + b) =~= readable_ports(a) + readable_ports(b));
    }
}

/// The main port is the last one that is marked as such; without a mark there
/// is none.
pub proof fn law_main_port_is_the_last_marked(reported: Seq<Option<ReportedPort>>)
    ensures
        match last_main(reported) {
            Some(m) => {
                &&& 0 <= m < reported.len()
                &&& reported[m] matches Some(p)
                &&& p.is_main
                &&& forall|i: int|
                    m < i < reported.len() ==> !(#[trigger] reported[i] matches Some(q)
                        && q.is_main)
            },
            None => forall|i: int|
                0 <= i < reported.len() ==> !(#[trigger] reported[i] matches Some(q) && q.is_main),
        },
    decreases reported.len(),
{
    if reported.len() > 0 {
        let init = reported.drop_last();
        law_main_port_is_the_last_marked(init);
        assert forall|i: int| 0 <= i < init.len() implies init[i] == #[trigger] reported[i] by {}
    }
}

/// The channels of all ports are those of each, added up.
pub proof fn law_channels_add_up(a: Seq<PortInfo>, b: Seq<PortInfo>, port: PortInfo)
    ensures
        channel_total(a + b) == channel_total(a) + channel_total(b),
        channel_total(seq![port]) == port.channel_count,
    decreases b.len(),
{
    reveal_with_fuel(channel_total, 2);
    assert(seq![port].drop_last() =~= Seq::<PortInfo>::empty());
    if b.len() == 0 {
        assert(a + b =~= a);
    } else {
        law_channels_add_up(a, b.drop_last(), port);
        assert((a + b).drop_last() =~= a + b.drop_last());
        assert((a + b).last() == b.last());
    }
}

/// A device block holds as many whole frames as fit into it, and no more than
/// the plugin takes at once.
pub proof fn law_blocks_hold_whole_frames(len: nat, channels: nat, capacity: nat)
    requires
        channels > 0,
    ensures
        block_frames(len, channels, capacity) <= capacity,
        block_frames(len, channels, capacity) * channels <= len,
        block_frames(len, channels, capacity) == capacity || (block_frames(len, channels, capacity)
            + 1) * channels > len,
{
    let q = len / channels;
    lemma_fundamental_div_mod(len as int, channels as int);
    let m = len as int % channels as int;
    assert(q * channels <= len) by (nonlinear_arith)
        requires
            len == channels * q + m,
            0 <= m,
    ;
    assert((q + 1) * channels > len) by (nonlinear_arith)
        requires
            len == channels * q + m,
            m < channels,
    ;
    if q > capacity {
        assert(capacity * channels <= q * channels) by (nonlinear_arith)
            requires
                capacity <= q,
        ;
    }
}

/// A plugin drives the channels of its main output, one at least; without any
/// output it drives two.
pub proof fn law_main_output_is_driven(config: PortConfig)
    ensures
        config.ports@.len() == 0 ==> driven_channels(config) == 2,
        config.has_main_port() && config.ports@[config.main_port_index as int].channel_count > 0
            ==> driven_channels(config) == config.ports@[config.main_port_index as int].channel_count,
        config.has_main_port() && config.ports@[config.main_port_index as int].channel_count == 0
            ==> driven_channels(config) == 1,
{
}

/// Only an effect takes input, and only where there is some and a port for it.
pub proof fn law_only_effects_take_input<T: Copy>(
    processor: PluginAudioProcessor<T>,
    input: Seq<T>,
)
    ensures
        processor.takes_input(input) <==> processor.mode == PluginMode::Effect && input.len() > 0
            && processor.input_port_config.ports@.len() > 0,
{
}

/// What the device plays is the plugin's main output, frame by frame: each of
/// its channels in order. Without an output everything is silent.
pub proof fn law_main_output_is_played<T: Copy>(
    processor: PluginAudioProcessor<T>,
    output: Seq<T>,
    frames: int,
    frame: int,
    channel: int,
)
    requires
        processor.wf(),
        0 <= frames <= processor.frame_capacity,
        0 <= frame,
        0 <= channel < processor.output_channel_count,
        frame * processor.output_channel_count + channel < output.len(),
    ensures
        processor.written(output, frames).len() == output.len(),
        ({
            let at = frame * processor.output_channel_count + channel;
            let played = processor.written(output, frames)[at];
            let main = processor.output_port_config.main_port_index as int;
            if processor.output_port_config.ports@.len() == 0 {
                played == processor.silence
            } else if frame >= frames {
                played == output[at]
            } else if processor.output_port_config.ports@[main].channel_count > 0 {
                played == processor.output_port_channels@[main]@[channel * processor.frame_capacity
                    + frame]
            } else {
                played == processor.silence
            }
        }),
{
    let width = processor.output_channel_count as int;
    assert(0 <= frame * width) by (nonlinear_arith)
        requires
            0 <= frame,
            0 < width,
    ;
    if processor.output_port_config.ports@.len() > 0 {
        let main = processor.output_port_config.main_port_index as int;
        let channels = processor.output_port_config.ports@[main].channel_count as int;
        let planes = processor.output_port_channels@[main]@;
        assert(planes.len() == processor.frame_capacity * channels);
        lemma_fundamental_div_mod_converse(frame * width + channel, width, frame, channel);
        assert(width * frame == frame * width) by (nonlinear_arith);
        if channels == 0 {
            assert(processor.frame_capacity * channels == 0) by (nonlinear_arith)
                requires
                    channels == 0,
            ;
        }
        if channels > 0 {
            assert(channels * processor.frame_capacity <= planes.len()) by (nonlinear_arith)
                requires
                    planes.len() == processor.frame_capacity * channels,
            ;
            law_frames_hold_the_channels(
                planes,
                channels,
                processor.frame_capacity as int,
                frames,
                width,
                output,
                processor.silence,
                frame,
                channel,
            );
        }
    }
}

/// What counts as the same setup, together with the same blocks, is all that a
/// processor holds.
pub proof fn law_same_setup_and_blocks<T: Copy>(
    a: PluginAudioProcessor<T>,
    b: PluginAudioProcessor<T>,
)
    requires
        a.same_setup(&b),
        a.input_port_channels == b.input_port_channels,
        a.output_port_channels == b.output_port_channels,
    ensures
        a == b,
{
}

/// Silent blocks hold nothing but silence, and blocks of the same sizes are as
/// many and as long.
pub proof fn law_silent_blocks<T>(a: Seq<Vec<T>>, b: Seq<Vec<T>>, silence: T, i: int, k: int)
    requires
        0 <= i < a.len(),
    ensures
        all_silent(a, silence) && 0 <= k < a[i]@.len() ==> a[i]@[k] == silence,
        same_sizes(a, b) ==> a.len() == b.len() && a[i]@.len() == b[i]@.len(),
{
    if all_silent(a, silence) && 0 <= k < a[i]@.len() {
        assert(a[i]@ == constant(a[i]@.len(), silence));
        assert(constant(a[i]@.len(), silence)[k] == silence);
    }
}

/// A plugin that reports no ports has no input and a stereo output.
pub proof fn law_default_layout(config: PortConfig)
    ensures
        is_default_layout(config, true) ==> config.ports@.len() == 0,
        is_default_layout(config, false) ==> config.ports@.len() == 1
            && config.ports@[0].channel_count == 2 && config.ports@[0].name@ == "Default"@
            && config.has_main_port(),
{
    let views = port_views(config.ports@);
    assert(views.len() == config.ports@.len());
    if is_default_layout(config, false) {
        assert(views[0] == config.ports@[0]@);
    }
}

} // verus!

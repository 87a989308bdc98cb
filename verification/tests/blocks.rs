use nih_plug_playground::plugin_host::audio::{
    query_ports, PluginAudioConfig, PluginAudioProcessor, PortConfig, PortInfo, PortType,
    ProcessorPhase, ReportedPort,
};
use nih_plug_playground::plugin_host::PluginMode;
use nih_plug_playground::samples::{deinterleave, filled, interleave, SampleQueue};

fn config(max: u32, mode: PluginMode) -> PluginAudioConfig {
    PluginAudioConfig {
        sample_rate: 48000,
        min_buffer_size: 1,
        max_buffer_size: max,
        mode,
    }
}

fn ports(counts: &[u16], main: u32) -> PortConfig {
    PortConfig {
        ports: counts
            .iter()
            .map(|c| PortInfo {
                channel_count: *c,
                name: "port".to_string(),
            })
            .collect(),
        main_port_index: main,
    }
}

fn reported(port_type: Option<PortType>, count: u32, is_main: bool, name: &[u8]) -> ReportedPort {
    ReportedPort {
        port_type,
        channel_count: count,
        is_main,
        name: name.to_vec(),
    }
}

#[test]
fn a_plugin_without_ports_gets_a_default_layout() {
    for list in [None, Some(vec![]), Some(vec![None])] {
        let inputs = query_ports(&list, true);
        assert_eq!(inputs.ports.len(), 0);
        let outputs = query_ports(&list, false);
        assert_eq!(outputs.ports.len(), 1);
        assert_eq!(outputs.main_port().channel_count, 2);
        assert_eq!(outputs.main_port().name, "Default");
        assert_eq!(outputs.total_channel_count(), 2);
    }
}

#[test]
fn ports_are_read_as_reported() {
    let list = Some(vec![
        Some(reported(None, 1, false, b"mono")),
        Some(reported(Some(PortType::Stereo), 7, true, b"main")),
        Some(reported(Some(PortType::Other), 0x1_0003, false, b"\xffx")),
    ]);
    let read = query_ports(&list, false);
    let counts: Vec<u16> = read.ports.iter().map(|p| p.channel_count).collect();
    assert_eq!(counts, vec![1, 2, 3]);
    assert_eq!(read.main_port_index, 1);
    assert_eq!(read.main_port().name, "main");
    assert_eq!(read.ports[2].name, "\u{fffd}x");
    assert_eq!(read.total_channel_count(), 6);
}

#[test]
fn the_last_main_port_counts() {
    let list = Some(vec![
        Some(reported(None, 2, true, b"a")),
        Some(reported(None, 4, true, b"b")),
    ]);
    assert_eq!(query_ports(&list, true).main_port_index, 1);
    let list = Some(vec![Some(reported(None, 4, false, b"b"))]);
    assert_eq!(query_ports(&list, true).main_port_index, 0);
}

#[test]
fn a_processor_starts_silent() {
    let p = PluginAudioProcessor::new(
        &config(4, PluginMode::Effect),
        ports(&[2], 0),
        ports(&[1, 3], 1),
        0.0f32,
    );
    assert_eq!(p.output_channel_count(), 3);
    assert_eq!(p.input_port_channels, vec![vec![0.0; 8]]);
    assert_eq!(p.output_port_channels, vec![vec![0.0; 4], vec![0.0; 12]]);
    assert_eq!(p.muxed.len(), 12);
    assert!(p.needs_start());
    let none = PluginAudioProcessor::new(
        &config(4, PluginMode::Effect),
        ports(&[], 0),
        ports(&[], 0),
        0.0f32,
    );
    assert_eq!(none.output_channel_count(), 2);
    let mute = PluginAudioProcessor::new(
        &config(4, PluginMode::Effect),
        ports(&[], 0),
        ports(&[0], 0),
        0.0f32,
    );
    assert_eq!(mute.output_channel_count(), 1);
    assert_eq!(mute.muxed.len(), 8);
}

#[test]
fn a_processor_starts_once() {
    let mut p = PluginAudioProcessor::new(
        &config(4, PluginMode::Effect),
        ports(&[], 0),
        ports(&[2], 0),
        0i16,
    );
    p.start_finished(false);
    assert_eq!(p.phase, ProcessorPhase::Failed);
    assert!(!p.needs_start());
    p.start_finished(true);
    assert_eq!(p.phase, ProcessorPhase::Started);
    assert!(!p.needs_start());
}

#[test]
fn an_effect_gets_its_input_by_channel() {
    let mut p = PluginAudioProcessor::new(
        &config(4, PluginMode::Effect),
        ports(&[2], 0),
        ports(&[2], 0),
        0i16,
    );
    p.output_port_channels[0] = vec![9; 8];
    let frames = p.process(&[1, 2, 3, 4, 5, 6], 6);
    assert_eq!(frames, 3);
    assert_eq!(p.input_port_channels[0], vec![1, 3, 5, 0, 2, 4, 6, 0]);
    assert_eq!(p.output_port_channels[0], vec![0; 8]);
}

#[test]
fn an_instrument_gets_no_input() {
    let mut p = PluginAudioProcessor::new(
        &config(4, PluginMode::Instrument),
        ports(&[2], 0),
        ports(&[2], 0),
        0i16,
    );
    assert_eq!(p.process(&[1, 2, 3, 4], 4), 2);
    assert_eq!(p.input_port_channels[0], vec![0; 8]);
    assert_eq!(p.process(&[], 1), 0);
    assert_eq!(p.process(&[], 100), 4);
}

#[test]
fn a_wider_input_is_cut() {
    let mut p = PluginAudioProcessor::new(
        &config(2, PluginMode::Effect),
        ports(&[1], 0),
        ports(&[2], 0),
        0i16,
    );
    assert_eq!(p.process(&[1, 2, 3, 4], 4), 2);
    assert_eq!(p.input_port_channels[0], vec![1, 3]);
}

#[test]
fn output_is_interleaved() {
    let mut p = PluginAudioProcessor::new(
        &config(3, PluginMode::Instrument),
        ports(&[], 0),
        ports(&[2], 0),
        0i16,
    );
    p.output_port_channels[0] = vec![1, 2, 3, 10, 20, 30];
    let mut out = vec![7i16; 7];
    p.write_output(&mut out, 2);
    assert_eq!(out, vec![1, 10, 2, 20, 7, 7, 7]);
    p.end_block(&mut out, 3, true);
    assert_eq!(out, vec![0; 7]);
    assert_eq!(p.steady_counter, 0);
    p.start_finished(true);
    out = vec![7i16; 7];
    p.end_block(&mut out, 3, true);
    assert_eq!(out, vec![1, 10, 2, 20, 3, 30, 7]);
    assert_eq!(p.steady_counter, 3);
    p.end_block(&mut out, 3, false);
    assert_eq!(out, vec![0; 7]);
    assert_eq!(p.steady_counter, 3);
    p.start_finished(false);
    out = vec![7i16; 7];
    p.end_block(&mut out, 3, true);
    assert_eq!(out, vec![0; 7]);
    assert_eq!(p.steady_counter, 3);
}

#[test]
fn a_plugin_without_outputs_is_silent() {
    let mut p = PluginAudioProcessor::new(
        &config(3, PluginMode::Instrument),
        ports(&[], 0),
        ports(&[], 0),
        0i16,
    );
    let mut out = vec![7i16; 4];
    p.start_finished(true);
    p.finish(&mut out, 2);
    assert_eq!(out, vec![0; 4]);
    assert_eq!(p.steady_counter, 2);
}

#[test]
fn blocks_grow_and_keep_what_they_hold() {
    let mut p = PluginAudioProcessor::new(
        &config(2, PluginMode::Effect),
        ports(&[1], 0),
        ports(&[2], 0),
        0i16,
    );
    p.input_port_channels[0] = vec![1, 2];
    p.ensure_capacity(3);
    assert_eq!(p.input_port_channels[0], vec![1, 2, 0]);
    assert_eq!(p.output_port_channels[0].len(), 6);
    assert_eq!(p.frame_capacity, 3);
    assert_eq!(p.muxed.len(), 6);
    p.ensure_capacity(1);
    assert_eq!(p.input_port_channels[0], vec![0, 0, 0]);
    assert_eq!(p.frame_capacity, 3);
}

#[test]
fn layouts_go_there_and_back() {
    let input = vec![1, 2, 3, 4, 5, 6];
    let mut planes = filled(8, 0);
    deinterleave(&input, 2, 2, 4, 3, &mut planes, 0);
    assert_eq!(planes, vec![1, 3, 5, 0, 2, 4, 6, 0]);
    let mut output = filled(6, 0);
    interleave(&planes, 2, 4, 3, 2, &mut output, 0);
    assert_eq!(output, input);
}

#[test]
fn a_mono_block_is_copied_to_every_channel() {
    let planes = vec![1, 2, 3];
    let mut output = filled(4, 0);
    interleave(&planes, 1, 3, 2, 2, &mut output, 0);
    assert_eq!(output, vec![1, 1, 2, 2]);
}

#[test]
fn a_queue_hands_out_what_came_first() {
    let mut queue = SampleQueue::new(4);
    queue.feed(&[1, 2, 3]);
    queue.feed(&[4, 5, 6]);
    let mut out = vec![0; 3];
    queue.drain_into(&mut out, -1);
    assert_eq!(out, vec![1, 2, 3]);
    queue.drain_into(&mut out, -1);
    assert_eq!(out, vec![4, -1, -1]);
    queue.feed(&[7]);
    queue.drain_into(&mut out, -1);
    assert_eq!(out, vec![7, -1, -1]);
}

#[test]
fn two_blocks_are_taken_as_one() {
    let mut split = SampleQueue::new(5);
    split.feed(&[1, 2]);
    split.feed(&[3, 4, 5, 6]);
    let mut whole = SampleQueue::new(5);
    whole.feed(&[1, 2, 3, 4, 5, 6]);
    let mut a = vec![0; 6];
    let mut b = vec![0; 6];
    split.drain_into(&mut a, 0);
    whole.drain_into(&mut b, 0);
    assert_eq!(a, b);
    assert_eq!(a, vec![1, 2, 3, 4, 5, 0]);
}

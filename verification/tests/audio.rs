use nih_plug_playground::audio_engine::{
    enumerate_devices, pick_device, plugin_channels, AudioEngine, AudioStatus, Direction,
    PassthroughStarted, StreamFailure, StreamHolder, BUFFER_SIZE_OPTIONS, COMMON_SAMPLE_RATES,
};
use nih_plug_playground::ui::settings_panel::{
    audio_banner, press, rate_label, start_stop_button,
    FoundDevices, SettingsInput, SettingsPanel, StartStop,
};
use nih_plug_playground::ui::Color;

fn found(names: &[Option<&str>]) -> Option<Vec<Option<String>>> {
    Some(names.iter().map(|n| n.map(|s| s.to_string())).collect())
}

fn listed(names: &[Option<&str>]) -> Result<Vec<Option<String>>, String> {
    Ok(found(names).unwrap())
}

fn engine() -> AudioEngine {
    AudioEngine::new(
        &found(&[Some("Mic"), None, Some("Line")]),
        &found(&[Some("Speakers")]),
    )
}

#[test]
fn the_default_device_is_always_there() {
    assert_eq!(enumerate_devices(&None), vec!["Default"]);
    assert_eq!(
        enumerate_devices(&found(&[Some("Mic"), None, Some("Line")])),
        vec!["Default", "Mic", "Line"]
    );
}

#[test]
fn a_new_engine_is_stopped() {
    let e = engine();
    assert_eq!(e.status, AudioStatus::Stopped);
    assert_eq!(e.input_device_names, vec!["Default", "Mic", "Line"]);
    assert_eq!(e.current_sample_rate(), 44100);
    assert_eq!(e.current_buffer_size(), (256, 256));
    assert!(e.running_info.is_none());
}

#[test]
fn the_choices_on_offer() {
    assert_eq!(COMMON_SAMPLE_RATES, [44100, 48000, 88200, 96000, 192000]);
    let labels: Vec<&str> = BUFFER_SIZE_OPTIONS.iter().map(|o| o.0).collect();
    assert_eq!(labels, vec!["Default", "64", "128", "256", "512", "1024", "2048"]);
    let mut e = engine();
    e.selected_sample_rate_idx = 4;
    e.selected_buffer_size_idx = 6;
    assert_eq!(e.current_sample_rate(), 192000);
    assert_eq!(e.current_buffer_size(), (2048, 2048));
}

#[test]
fn a_choice_past_the_end_becomes_the_last() {
    let mut e = engine();
    e.selected_input_idx = 2;
    e.selected_output_idx = 1;
    e.refresh_devices(&found(&[Some("Mic")]), &None);
    assert_eq!(e.selected_input_idx, 1);
    assert_eq!(e.selected_output_idx, 0);
    assert_eq!(e.output_device_names, vec!["Default"]);
}

#[test]
fn devices_are_found_by_name() {
    let names = vec!["Default".to_string(), "Mic".to_string()];
    let none: Result<Vec<Option<String>>, String> = Err("busy".to_string());
    assert_eq!(pick_device(Direction::Input, 0, &names, true, &none), Ok(None));
    assert_eq!(pick_device(Direction::Input, 0, &vec![], true, &none), Ok(None));
    assert_eq!(
        pick_device(Direction::Input, 0, &names, false, &none),
        Err("No default input device found".to_string())
    );
    assert_eq!(
        pick_device(Direction::Output, 0, &names, false, &none),
        Err("No default output device found".to_string())
    );
    assert_eq!(
        pick_device(Direction::Input, 1, &names, true, &none),
        Err("busy".to_string())
    );
    let there = listed(&[None, Some("Line"), Some("Mic"), Some("Mic")]);
    assert_eq!(pick_device(Direction::Input, 1, &names, false, &there), Ok(Some(2)));
    let gone = listed(&[None, Some("Line")]);
    assert_eq!(
        pick_device(Direction::Input, 1, &names, true, &gone),
        Err("Input device not found: Mic".to_string())
    );
    assert_eq!(
        pick_device(Direction::Output, 1, &names, true, &gone),
        Err("Output device not found: Mic".to_string())
    );
}

#[test]
fn the_engine_picks_its_devices() {
    let mut e = engine();
    assert_eq!(e.input_device(true, &listed(&[])), Ok(None));
    e.selected_input_idx = 2;
    assert_eq!(e.input_device(true, &listed(&[Some("Line")])), Ok(Some(0)));
    assert_eq!(
        e.output_device(false, &listed(&[])),
        Err(StreamFailure::Device("No default output device found".to_string()))
    );
    e.selected_output_idx = 1;
    assert_eq!(
        e.output_device(false, &listed(&[])).err().unwrap().message(),
        "Output device not found: Speakers"
    );
}

#[test]
fn a_plugin_plays_on_one_or_two_channels() {
    assert_eq!(plugin_channels(0), 1);
    assert_eq!(plugin_channels(1), 1);
    assert_eq!(plugin_channels(2), 2);
    assert_eq!(plugin_channels(8), 2);
}

#[test]
fn plans_follow_the_choices() {
    let mut e = engine();
    let plan = e.plugin_plan(2);
    assert_eq!(plan.channels, 2);
    assert_eq!(plan.sample_rate, 44100);
    assert_eq!(plan.buffer_size, 256);
    assert_eq!(plan.queue_capacity, 88200);
    assert_eq!(e.plugin_plan(1).queue_capacity, 65536);
    e.selected_sample_rate_idx = 4;
    let plan = e.passthrough_plan(Ok(65535), Ok(65535)).unwrap();
    assert_eq!(plan.queue_capacity, 192000 * 65535);
    assert_eq!(e.passthrough_plan(Ok(4), Ok(2)).unwrap().channels, 2);
    assert_eq!(
        e.passthrough_plan(Err("x".to_string()), Err("y".to_string())).err().unwrap().message(),
        "Input config error: x"
    );
    assert_eq!(
        e.passthrough_plan(Ok(1), Err("y".to_string())).err().unwrap().message(),
        "Output config error: y"
    );
}

#[test]
fn passthrough_runs_until_it_is_stopped() {
    let mut e = engine();
    e.start(Ok(PassthroughStarted {
        input_name: None,
        output_name: Some("Speakers".to_string()),
        channels: 2,
    }));
    assert_eq!(e.status, AudioStatus::Running);
    assert_eq!(e.streams, Some(StreamHolder::Passthrough));
    let info = e.running_info.clone().unwrap();
    assert_eq!(info.input_device, "Unknown");
    assert_eq!(info.output_device, "Speakers");
    assert_eq!(info.sample_rate, 44100);
    assert_eq!(info.buffer_size, "Default");
    assert_eq!(info.channels, 2);
    e.stop();
    assert_eq!(e.status, AudioStatus::Stopped);
    assert!(e.running_info.is_none());
    assert!(e.streams.is_none());
}

#[test]
fn a_plugin_runs_with_or_without_input() {
    let mut e = engine();
    e.selected_buffer_size_idx = 1;
    e.start_with_plugin_instrument(6, Ok(Some("Speakers".to_string())));
    let info = e.running_info.clone().unwrap();
    assert_eq!(info.input_device, "(none — instrument mode)");
    assert_eq!(info.buffer_size, "64");
    assert_eq!(info.channels, 2);
    assert_eq!(e.streams, Some(StreamHolder::PluginOutput));
    e.start_with_plugin_effect(1, Ok((Some("Mic".to_string()), None)));
    let info = e.running_info.clone().unwrap();
    assert_eq!(info.input_device, "Mic");
    assert_eq!(info.output_device, "Unknown");
    assert_eq!(info.channels, 1);
    assert_eq!(e.streams, Some(StreamHolder::PluginInsert));
}

#[test]
fn a_failure_stops_the_engine() {
    let failures = vec![
        (StreamFailure::BuildInput("e".to_string()), "Failed to build input stream: e"),
        (StreamFailure::BuildOutput("e".to_string()), "Failed to build output stream: e"),
        (StreamFailure::PlayOutput("e".to_string()), "Failed to play output stream: e"),
    ];
    for (failure, words) in failures {
        let mut e = engine();
        e.start_with_plugin_instrument(2, Ok(None));
        e.start_with_plugin_effect(2, Err(failure));
        assert_eq!(e.status, AudioStatus::Error(words.to_string()));
        assert!(e.running_info.is_none());
        assert!(e.streams.is_none());
    }
}

#[test]
fn the_audio_settings() {
    let mut panel = SettingsPanel::default();
    let mut e = engine();
    let frame = |closed, start_stop_pressed| SettingsInput {
        closed,
        start_stop_pressed,
        refreshed: None,
    };
    e.start_with_plugin_instrument(2, Ok(None));
    assert!(!panel.show(&mut e, &frame(false, true)));
    assert_eq!(e.status, AudioStatus::Running);
    e.selected_input_idx = 2;
    panel.open(&mut e, &None, &None);
    assert!(panel.is_open);
    assert_eq!(e.selected_input_idx, 0);
    assert!(!panel.show(&mut e, &frame(false, false)));
    assert_eq!(e.status, AudioStatus::Running);
    assert!(panel.show(&mut e, &frame(false, true)));
    assert_eq!(e.status, AudioStatus::Stopped);
    assert!(e.streams.is_none());
    assert!(panel.show(&mut e, &frame(false, true)));
    assert_eq!(e.status, AudioStatus::Stopped);
    let refresh = SettingsInput {
        closed: true,
        start_stop_pressed: false,
        refreshed: Some(FoundDevices {
            inputs: Some(vec![Some("Mic".to_string()), None]),
            outputs: None,
        }),
    };
    assert!(!panel.show(&mut e, &refresh));
    assert_eq!(e.input_device_names, vec!["Default", "Mic"]);
    assert_eq!(e.output_device_names, vec!["Default"]);
    assert!(!panel.is_open);
    e.start_with_plugin_instrument(2, Ok(None));
    assert_eq!(press(&mut e), StartStop::Stop);
    assert_eq!(press(&mut e), StartStop::Start);
    assert_eq!(e.status, AudioStatus::Stopped);
}

#[test]
fn the_audio_status_in_words() {
    let mut e = engine();
    assert_eq!(audio_banner(&e), Some(("● Stopped".to_string(), Color::Gray)));
    assert_eq!(
        start_stop_button(&e.status),
        ("▶  Start Audio", Color::Rgb(100, 220, 100), StartStop::Start)
    );
    e.start_with_plugin_instrument(2, Ok(None));
    assert_eq!(
        audio_banner(&e),
        Some((
            "● Running  │  44100 Hz  │  Default samples  │  2 ch".to_string(),
            Color::Rgb(100, 220, 100)
        ))
    );
    assert_eq!(
        start_stop_button(&e.status),
        ("⏹  Stop Audio", Color::Rgb(255, 100, 100), StartStop::Stop)
    );
    e.start(Err(StreamFailure::Device("gone".to_string())));
    assert_eq!(audio_banner(&e), Some(("✗  gone".to_string(), Color::Rgb(255, 90, 90))));
    assert_eq!(rate_label(48000), "48000 Hz");
}

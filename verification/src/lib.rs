//! A playground for CLAP plugins: the model behind its editor, build runner,
//! audio and MIDI engines, plugin host and panels.
//!
//! Everything here decides and computes; windows, devices, files and
//! processes belong to the program around it.

pub mod app;
pub mod audio_engine;
pub mod build_system;
pub mod manifest;
pub mod midi_engine;
pub mod scaffolding;
pub mod templates;
pub mod text;
pub mod ui;
pub mod project;
pub mod samples;
pub mod plugin_host;

//! Verified core of a speech-to-text desktop client: configuration rules,
//! hotkey parsing, audio interval normalization, conversion settings, capture
//! formats, response handling, the runtime's state machine and the window
//! decisions.
pub mod asr;
pub mod audio_devices;
pub mod audio_options;
pub mod cache;
pub mod capture_wav;
pub mod clipboard;
pub mod config;
pub mod converter;
pub mod embedded_ffmpeg;
pub mod fields;
pub mod gui_converter;
pub mod hotkey;
pub mod intervals;
pub mod jsonpath;
pub mod keyboard;
pub mod layout;
pub mod microphone;
pub mod recorder;
pub mod runtime;
pub mod text;
pub mod text_input;
pub mod window_events;
pub mod vad;

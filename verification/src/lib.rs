
//! Joya: the verified core of a real-time voice-to-voice interpreter.

pub mod app;
pub mod audio;
pub mod chat;
pub mod config;
pub mod devices;
pub mod encoding;
pub mod http;
pub mod json;
pub mod monitor;
pub mod overlay_board;
pub mod pipeline;
pub mod playback;
pub mod screen_capture;
pub mod screen_overlay;
pub mod screen_translate;
pub mod sequence;
pub mod single;
pub mod stt;
pub mod text;
pub mod translate;
pub mod tts;
pub mod wav;

//! Verified core of a push-to-talk dictation utility.

pub mod audio;
pub mod hotkey;
pub mod injector;
pub mod text;
pub mod transcriber;

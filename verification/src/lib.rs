//! The rules of a menu-bar dictation app.

pub mod audio;
pub mod bubble;
pub mod credit;
pub mod error;
pub mod hotkey;
pub mod icons;
pub mod languages;
pub mod launch;
pub mod model;
pub mod palette;
pub mod paste;
pub mod paths;
pub mod platform;
pub mod progress;
pub mod recorder;
pub mod samples;
pub mod settings;
pub mod text;
pub mod transcribe;
pub mod ui;
pub mod wav;
pub mod worker;

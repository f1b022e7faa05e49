//! Audio Toolbox.

pub mod audio_services;

pub mod devices;
pub mod macos_core_audio;
pub mod shared;

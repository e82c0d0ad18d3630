//! The minimal visualizer: five modes drawn as ANSI text, sources read through a C
//! shim over PulseAudio.
pub mod config;
pub mod audio;
pub mod source;
pub mod frame;
pub mod fft;

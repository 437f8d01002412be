//! # Broad Audio Engine
//!
//! A real-time audio synthesis and processing engine. Signal sources
//! ("generators") and filters ("modifiers") are wired into directed graphs
//! of processing blocks, evaluated once per engine sample, and mixed into
//! output tracks through channels.
//!
//! Audio samples are fixed-point values (see [`sample_format::Sample`]),
//! so every stage of the engine has an exact mathematical description and
//! every processing function carries a contract that pins its result down.

pub mod channels;
pub mod complex_sound;
pub mod debug;
pub mod generators;
pub mod modifiers;
pub mod mono_resampler;
pub mod sample_format;
pub mod simple_sound;
pub mod sounds;
pub mod standard_block;
pub mod standard_channel;
pub mod tools;
pub mod utils;

pub use sample_format::Sample;

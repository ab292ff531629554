//! Renders video frames as ASCII art in a terminal.
//!
//! The crate holds the core of the player: mapping pixel intensities to
//! glyphs of a fixed ramp, assembling rendered frames, discovering
//! extracted frame files by their indices, pacing playback against a
//! frame budget, and tracking progress. Everything around it (reading
//! images from disk, spawning the extraction tool, painting to the
//! terminal) lives outside the library and hands it plain values.

pub mod cliargs;
pub mod text;
pub mod badframes;
pub mod bar;
pub mod player;

//! The command-line surface of the player: a source video, a directory
//! for the extracted frames, and the target frame rate.

use vstd::prelude::*;

verus! {

/// The three positional arguments of a run. Argument parsing itself is
/// done outside the library; the parsed values are carried in this
/// plain struct.
pub struct Cli {
    /// Path to a video
    pub video_path: String,
    /// Frames output dir
    pub frame_dir: String,
    /// Frames per second
    pub fps: u32,
}

} // verus!

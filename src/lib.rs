//! Decoding of 3D-printer toolpath files: the binary `.bgcode` container and
//! the line-oriented G-code text that it carries.

use vstd::prelude::*;

pub mod bytes;
pub mod block;
pub mod crc;
pub mod file_header;
pub mod default_params;
pub mod data_blocks;
pub mod thumbnail_block;
pub mod bgcode;
pub mod inflate;
pub mod number;
pub mod params;
pub mod text;
pub mod multipart;
pub mod command;
pub mod markdown;
pub mod geometry;
pub mod motion;

verus! {

/// Absolute or relative positioning; absolute is the default.
#[derive(Clone, Copy, Debug, PartialEq, Eq, Structural)]
pub enum PositionMode {
    /// Coordinates replace the current position.
    Absolute,
    /// Coordinates are added to the current position.
    Relative,
}

impl Default for PositionMode {
    /// Absolute positioning, the mode a traversal starts in.
    fn default() -> (r: PositionMode)
        ensures
            r == PositionMode::Absolute,
    {
        PositionMode::Absolute
    }
}

} // verus!

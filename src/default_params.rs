//! The two-byte parameter word shared by every block kind but thumbnails.

use vstd::prelude::*;

verus! {

/// Encoding of a block's payload once decompressed. Only G-code blocks use
/// anything but `Plain`.
#[derive(Clone, Copy, Debug, PartialEq, Eq, Structural)]
pub enum Encoding {
    /// 0: no encoding.
    Plain,
    /// 1: MeatPack.
    MeatPackAlgorithm,
    /// 2: MeatPack keeping comment lines.
    MeatPackModifiedAlgorithm,
}

/// The encoding that a wire id stands for (ids above 2 have none).
pub open spec fn encoding_of(id: int) -> Encoding {
    if id == 1 {
        Encoding::MeatPackAlgorithm
    } else if id == 2 {
        Encoding::MeatPackModifiedAlgorithm
    } else {
        Encoding::Plain
    }
}

/// Parameters of every block kind but thumbnails.
#[derive(Clone, Copy, Debug, PartialEq, Eq, Structural)]
pub struct Param {
    pub encoding: Encoding,
}

impl Param {
    /// The parameters for an encoding id already known to be in `0..=2`.
    pub fn from_word(word: u16) -> (r: Param)
        requires
            word <= 2,
        ensures
            r.encoding == encoding_of(word as int),
    {
        let encoding = if word == 1 {
            Encoding::MeatPackAlgorithm
        } else if word == 2 {
            Encoding::MeatPackModifiedAlgorithm
        } else {
            Encoding::Plain
        };
        Param { encoding }
    }
}

} // verus!

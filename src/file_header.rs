//! The ten-byte header that opens a binary container.

use vstd::prelude::*;

use crate::block::BlockError;
use crate::bytes::read_le_u16;
use crate::bytes::read_le_u32;
use crate::bytes::spec_le_u16;
use crate::bytes::spec_le_u32;

verus! {

/// "GCDE" read as a little-endian `u32`.
pub const MAGIC: u32 = 0x4544_4347;

/// Whether each block is followed by a CRC32.
#[derive(Clone, Copy, Debug, PartialEq, Eq, Structural)]
pub enum ChecksumType {
    /// 0: blocks carry no checksum.
    NoChecksum,
    /// 1: a CRC32 follows every block.
    Crc32,
}

/// The file header: version (always 1) and checksum type.
#[derive(Clone, Copy, Debug, PartialEq, Eq, Structural)]
pub struct FileHeader {
    pub version: u32,
    pub checksum_type: ChecksumType,
}

impl FileHeader {
    /// Whether the blocks that follow carry a CRC32.
    pub open spec fn spec_has_crc(&self) -> bool {
        self.checksum_type == ChecksumType::Crc32
    }

    pub fn has_crc(&self) -> (r: bool)
        ensures
            r == self.spec_has_crc(),
    {
        match self.checksum_type {
            ChecksumType::Crc32 => true,
            ChecksumType::NoChecksum => false,
        }
    }
}

/// The header at the start of `s`, or why there is none.
pub open spec fn spec_file_header(s: Seq<u8>) -> Result<FileHeader, BlockError> {
    if s.len() < 4 {
        Err(BlockError::ShortInput)
    } else if spec_le_u32(s, 0) != MAGIC {
        Err(BlockError::BadMagic)
    } else if s.len() < 8 {
        Err(BlockError::ShortInput)
    } else if spec_le_u32(s, 4) != 1 {
        Err(BlockError::BadVersion)
    } else if s.len() < 10 {
        Err(BlockError::ShortInput)
    } else if spec_le_u16(s, 8) == 0 {
        Ok(FileHeader { version: 1, checksum_type: ChecksumType::NoChecksum })
    } else if spec_le_u16(s, 8) == 1 {
        Ok(FileHeader { version: 1, checksum_type: ChecksumType::Crc32 })
    } else {
        Err(BlockError::BadChecksumType)
    }
}

/// The ten bytes that encode a header of version 1 with the given checksum type.
pub open spec fn encode_file_header(checksum_type: ChecksumType) -> Seq<u8> {
    seq![0x47u8, 0x43u8, 0x44u8, 0x45u8, 1u8, 0u8, 0u8, 0u8,
        if checksum_type == ChecksumType::Crc32 { 1u8 } else { 0u8 }, 0u8]
}

/// Parses the file header: magic, version and checksum type.
pub fn file_header_parser(input: &[u8]) -> (r: Result<(&[u8], FileHeader), BlockError>)
    ensures
        match spec_file_header(input@) {
            Ok(h) => r matches Ok((rest, fh)) && fh == h && rest@ == input@.subrange(10, input@.len() as int),
            Err(e) => r == Err::<(&[u8], FileHeader), BlockError>(e),
        },
{
    let len = input.len();
    if len < 4 {
        return Err(BlockError::ShortInput);
    }
    if read_le_u32(input, 0) != MAGIC {
        return Err(BlockError::BadMagic);
    }
    if len < 8 {
        return Err(BlockError::ShortInput);
    }
    if read_le_u32(input, 4) != 1 {
        return Err(BlockError::BadVersion);
    }
    if len < 10 {
        return Err(BlockError::ShortInput);
    }
    let c = read_le_u16(input, 8);
    let checksum_type = if c == 0 {
        ChecksumType::NoChecksum
    } else if c == 1 {
        ChecksumType::Crc32
    } else {
        return Err(BlockError::BadChecksumType);
    };
    Ok((&input[10..len], FileHeader { version: 1, checksum_type }))
}

/// A header written as magic, version 1 and a checksum type parses back to
/// exactly that version and checksum type, whatever follows it.
pub proof fn lemma_file_header_round_trip(checksum_type: ChecksumType, rest: Seq<u8>)
    ensures
        spec_file_header(encode_file_header(checksum_type) + rest)
            == Ok::<FileHeader, BlockError>(FileHeader { version: 1, checksum_type }),
{
    let s = encode_file_header(checksum_type) + rest;
    assert(s[0] == 0x47u8 && s[1] == 0x43u8 && s[2] == 0x44u8 && s[3] == 0x45u8);
    assert(s[4] == 1u8 && s[5] == 0u8 && s[6] == 0u8 && s[7] == 0u8 && s[9] == 0u8);
    assert(s[8] == encode_file_header(checksum_type)[8]);
}

} // verus!

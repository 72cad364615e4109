//! The framing shared by every block of the binary container.

use vstd::prelude::*;

use crate::bytes::read_le_u16;
use crate::bytes::read_le_u32;
use crate::bytes::spec_le_u16;
use crate::bytes::spec_le_u32;
use crate::crc::crc32;
use crate::crc::crc32_of;

verus! {

/// Compression algorithm applied to a block's payload.
#[derive(Clone, Copy, Debug, PartialEq, Eq, Structural)]
pub enum CompressionType {
    /// 0: stored as is.
    Uncompressed,
    /// 1: DEFLATE with zlib framing.
    Deflate,
    /// 2: Heatshrink, window 11, lookahead 4.
    HeatShrink11,
    /// 3: Heatshrink, window 12, lookahead 4.
    HeatShrink12,
}

/// The compression that a wire id stands for.
pub open spec fn compression_of(id: int) -> Option<CompressionType> {
    if id == 0 {
        Some(CompressionType::Uncompressed)
    } else if id == 1 {
        Some(CompressionType::Deflate)
    } else if id == 2 {
        Some(CompressionType::HeatShrink11)
    } else if id == 3 {
        Some(CompressionType::HeatShrink12)
    } else {
        None
    }
}

/// Block header: compression, uncompressed size and, for a compressed
/// payload, its compressed size.
#[derive(Clone, Copy, Debug, PartialEq, Eq)]
pub struct BlockHeader {
    /// Compression algorithm.
    pub compression_type: CompressionType,
    /// Size of the data when uncompressed.
    pub uncompressed_size: u32,
    /// Size of the data when compressed (only for compressed payloads).
    pub compressed_size: Option<u32>,
}

impl BlockHeader {
    /// A compressed size is present exactly when the payload is compressed.
    pub open spec fn wf(&self) -> bool {
        (self.compression_type == CompressionType::Uncompressed) <==> self.compressed_size is None
    }

    /// On-wire size of the header, block type id included.
    pub open spec fn spec_size_in_bytes(&self) -> int {
        if self.compression_type == CompressionType::Uncompressed {
            8
        } else {
            12
        }
    }

    /// On-wire size of the payload.
    pub open spec fn spec_payload_size(&self) -> int {
        match self.compressed_size {
            Some(size) => size as int,
            None => self.uncompressed_size as int,
        }
    }

    /// The size in bytes of the block header: 8 when the payload is stored
    /// as is, 12 otherwise.
    pub fn size_in_bytes(&self) -> (r: usize)
        ensures
            r as int == self.spec_size_in_bytes(),
    {
        match self.compression_type {
            CompressionType::Uncompressed => 8,
            _ => 12,
        }
    }

    /// The number of payload bytes that follow the parameters.
    pub fn payload_size_in_bytes(&self) -> (r: usize)
        ensures
            r as int == self.spec_payload_size(),
    {
        match self.compressed_size {
            Some(size) => size as usize,
            None => self.uncompressed_size as usize,
        }
    }
}

/// What goes wrong while decoding a container or a G-code line.
#[derive(Clone, Copy, Debug, PartialEq, Eq)]
pub enum BlockError {
    /// The file does not begin with the expected preamble.
    BadMagic,
    /// The version field is not 1.
    BadVersion,
    /// The checksum type is not 0 or 1.
    BadChecksumType,
    /// The compression id is not in 0..=3.
    BadCompression,
    /// The encoding (or, for a thumbnail, the image format) is not accepted
    /// for this block type.
    BadEncoding,
    /// The block type id does not match the one expected at this position.
    BadBlockType,
    /// Fewer bytes remain than the layout asks for, or bytes remain after
    /// the last block.
    ShortInput,
    /// A codec reported an error.
    DecompressionFailure,
    /// The stored CRC32 differs from the one computed over the block.
    ChecksumMismatch {
        /// The value stored after the block.
        expected: u32,
        /// The value computed over the block.
        computed: u32,
    },
    /// An arc command has neither `I`/`J` nor `R`, or has both.
    InvalidArc,
    /// A line matches no command.
    UnparsableCommand,
    /// Heatshrink with window 11 is not supported.
    UnimplementedCompression,
    /// MeatPack without comment preservation is not supported.
    UnimplementedEncoding,
    /// The radius form of an arc is not supported.
    UnimplementedArcRadiusForm,
}

/// The six kinds of block, each with its fixed type id.
#[derive(Clone, Copy, Debug, PartialEq, Eq, Structural)]
pub enum BlockKind {
    /// 0: file metadata (optional).
    FileMetadata,
    /// 1: G-code.
    GCode,
    /// 2: slicer metadata.
    Slicer,
    /// 3: printer metadata.
    PrinterMetadata,
    /// 4: print metadata.
    PrintMetadata,
    /// 5: thumbnail.
    Thumbnail,
}

impl BlockKind {
    pub open spec fn spec_id(self) -> int {
        match self {
            BlockKind::FileMetadata => 0,
            BlockKind::GCode => 1,
            BlockKind::Slicer => 2,
            BlockKind::PrinterMetadata => 3,
            BlockKind::PrintMetadata => 4,
            BlockKind::Thumbnail => 5,
        }
    }

    /// Size of the block-specific parameters: 6 for a thumbnail, else 2.
    pub open spec fn spec_param_size(self) -> int {
        match self {
            BlockKind::Thumbnail => 6,
            _ => 2,
        }
    }

    /// Whether the first parameter word (the encoding, or a thumbnail's
    /// format) is accepted for this kind.
    pub open spec fn accepts_param(self, word: int) -> bool {
        match self {
            BlockKind::GCode => word <= 2,
            BlockKind::Thumbnail => word <= 2,
            _ => word == 0,
        }
    }

    pub fn id(self) -> (r: u16)
        ensures
            r as int == self.spec_id(),
    {
        match self {
            BlockKind::FileMetadata => 0,
            BlockKind::GCode => 1,
            BlockKind::Slicer => 2,
            BlockKind::PrinterMetadata => 3,
            BlockKind::PrintMetadata => 4,
            BlockKind::Thumbnail => 5,
        }
    }

    pub fn param_size(self) -> (r: usize)
        ensures
            r as int == self.spec_param_size(),
    {
        match self {
            BlockKind::Thumbnail => 6,
            _ => 2,
        }
    }

    fn check_param(self, word: u16) -> (r: bool)
        ensures
            r == self.accepts_param(word as int),
    {
        match self {
            BlockKind::GCode => word <= 2,
            BlockKind::Thumbnail => word <= 2,
            _ => word == 0,
        }
    }
}

/// Where the parts of one block lie in the input (absolute positions).
pub struct BlockLayout {
    pub header: BlockHeader,
    /// First byte of the block (its type id).
    pub start: int,
    /// First byte of the parameters.
    pub param_start: int,
    /// First byte of the payload; the parameters end here.
    pub data_start: int,
    /// One past the payload; the CRC32 covers `start..data_end`.
    pub data_end: int,
    /// The stored CRC32, when the file carries checksums.
    pub checksum: Option<u32>,
    /// One past the whole block.
    pub end: int,
}

/// The block header that starts at `pos`, or why none does.
pub open spec fn spec_block_header(s: Seq<u8>, pos: int, kind: BlockKind) -> Result<BlockHeader, BlockError> {
    if s.len() < pos + 2 {
        Err(BlockError::ShortInput)
    } else if spec_le_u16(s, pos) != kind.spec_id() {
        Err(BlockError::BadBlockType)
    } else if s.len() < pos + 4 {
        Err(BlockError::ShortInput)
    } else {
        match compression_of(spec_le_u16(s, pos + 2)) {
            None => Err(BlockError::BadCompression),
            Some(c) => {
                if c == CompressionType::Uncompressed {
                    if s.len() < pos + 8 {
                        Err(BlockError::ShortInput)
                    } else {
                        Ok(BlockHeader {
                            compression_type: c,
                            uncompressed_size: spec_le_u32(s, pos + 4) as u32,
                            compressed_size: None,
                        })
                    }
                } else if s.len() < pos + 12 {
                    Err(BlockError::ShortInput)
                } else {
                    Ok(BlockHeader {
                        compression_type: c,
                        uncompressed_size: spec_le_u32(s, pos + 4) as u32,
                        compressed_size: Some(spec_le_u32(s, pos + 8) as u32),
                    })
                }
            }
        }
    }
}

/// The framing of the block of kind `kind` that starts at `pos`, with a
/// trailing CRC32 when `crc` holds; the CRC is not checked here.
pub open spec fn spec_block(s: Seq<u8>, pos: int, kind: BlockKind, crc: bool) -> Result<BlockLayout, BlockError> {
    match spec_block_header(s, pos, kind) {
        Err(e) => Err(e),
        Ok(h) => {
            let param_start = pos + h.spec_size_in_bytes();
            let data_start = param_start + kind.spec_param_size();
            let data_end = data_start + h.spec_payload_size();
            if s.len() < data_start {
                Err(BlockError::ShortInput)
            } else if !kind.accepts_param(spec_le_u16(s, param_start)) {
                Err(BlockError::BadEncoding)
            } else if s.len() < data_end {
                Err(BlockError::ShortInput)
            } else if !crc {
                Ok(BlockLayout {
                    header: h,
                    start: pos,
                    param_start,
                    data_start,
                    data_end,
                    checksum: None,
                    end: data_end,
                })
            } else if s.len() < data_end + 4 {
                Err(BlockError::ShortInput)
            } else {
                Ok(BlockLayout {
                    header: h,
                    start: pos,
                    param_start,
                    data_start,
                    data_end,
                    checksum: Some(spec_le_u32(s, data_end) as u32),
                    end: data_end + 4,
                })
            }
        }
    }
}

/// The block at `pos`, its CRC32 checked against the bytes it covers
/// when `verify` holds.
#[verifier::opaque]
pub open spec fn spec_checked_block(s: Seq<u8>, pos: int, kind: BlockKind, crc: bool, verify: bool) -> Result<BlockLayout, BlockError> {
    match spec_block(s, pos, kind, crc) {
        Err(e) => Err(e),
        Ok(l) => match l.checksum {
            Some(stored) => {
                let computed = crc32_of(s.subrange(l.start, l.data_end));
                if verify && stored != computed {
                    Err(BlockError::ChecksumMismatch { expected: stored, computed })
                } else {
                    Ok(l)
                }
            },
            None => Ok(l),
        },
    }
}

/// A block as read from the input: its header, its parameter words, its
/// payload as it lies in the input, and its stored CRC32.
pub struct RawBlock<'a> {
    pub header: BlockHeader,
    pub params: [u16; 3],
    pub data: &'a [u8],
    pub checksum: Option<u32>,
    pub end: usize,
}

/// The raw block agrees with the layout found in `s`.
pub open spec fn raw_matches(b: RawBlock, s: Seq<u8>, l: BlockLayout, kind: BlockKind) -> bool {
    &&& b.header == l.header
    &&& b.header.wf()
    &&& b.data@ == s.subrange(l.data_start, l.data_end)
    &&& b.checksum == l.checksum
    &&& b.end == l.end
    &&& l.start < l.end <= s.len()
    &&& kind.accepts_param(spec_le_u16(s, l.param_start))
    &&& b.params[0] as int == spec_le_u16(s, l.param_start)
    &&& (kind == BlockKind::Thumbnail ==> {
        &&& b.params[1] as int == spec_le_u16(s, l.param_start + 2)
        &&& b.params[2] as int == spec_le_u16(s, l.param_start + 4)
    })
}

fn parse_block_header(input: &[u8], pos: usize, kind: BlockKind) -> (r: Result<BlockHeader, BlockError>)
    requires
        pos <= input@.len(),
    ensures
        r == spec_block_header(input@, pos as int, kind),
        r matches Ok(h) ==> h.wf(),
{
    let len = input.len();
    if len - pos < 2 {
        return Err(BlockError::ShortInput);
    }
    if read_le_u16(input, pos) != kind.id() {
        return Err(BlockError::BadBlockType);
    }
    if len - pos < 4 {
        return Err(BlockError::ShortInput);
    }
    let c = read_le_u16(input, pos + 2);
    let compression_type = if c == 0 {
        CompressionType::Uncompressed
    } else if c == 1 {
        CompressionType::Deflate
    } else if c == 2 {
        CompressionType::HeatShrink11
    } else if c == 3 {
        CompressionType::HeatShrink12
    } else {
        return Err(BlockError::BadCompression);
    };
    if c == 0 {
        if len - pos < 8 {
            return Err(BlockError::ShortInput);
        }
        Ok(BlockHeader { compression_type, uncompressed_size: read_le_u32(input, pos + 4), compressed_size: None })
    } else {
        if len - pos < 12 {
            return Err(BlockError::ShortInput);
        }
        Ok(BlockHeader {
            compression_type,
            uncompressed_size: read_le_u32(input, pos + 4),
            compressed_size: Some(read_le_u32(input, pos + 8)),
        })
    }
}

/// Reads the block of kind `kind` at `pos`: header, parameters, payload and,
/// when `crc` holds, the trailing CRC32, which is checked when `verify` holds.
pub fn parse_block<'a>(input: &'a [u8], pos: usize, kind: BlockKind, crc: bool, verify: bool) -> (r: Result<RawBlock<'a>, BlockError>)
    requires
        pos <= input@.len(),
    ensures
        match spec_checked_block(input@, pos as int, kind, crc, verify) {
            Ok(l) => r matches Ok(b) && raw_matches(b, input@, l, kind),
            Err(e) => r == Err::<RawBlock<'a>, BlockError>(e),
        },
{
    reveal(spec_checked_block);
    let header = match parse_block_header(input, pos, kind) {
        Ok(h) => h,
        Err(e) => return Err(e),
    };
    let len = input.len();
    let param_start = pos + header.size_in_bytes();
    let psize = kind.param_size();
    if len - param_start < psize {
        return Err(BlockError::ShortInput);
    }
    let data_start = param_start + psize;
    let w0 = read_le_u16(input, param_start);
    if !kind.check_param(w0) {
        return Err(BlockError::BadEncoding);
    }
    let (w1, w2) = if psize == 6 {
        (read_le_u16(input, param_start + 2), read_le_u16(input, param_start + 4))
    } else {
        (0, 0)
    };
    let payload = header.payload_size_in_bytes();
    if len - data_start < payload {
        return Err(BlockError::ShortInput);
    }
    let data_end = data_start + payload;
    let data = &input[data_start..data_end];
    if !crc {
        return Ok(RawBlock { header, params: [w0, w1, w2], data, checksum: None, end: data_end });
    }
    if len - data_end < 4 {
        return Err(BlockError::ShortInput);
    }
    let stored = read_le_u32(input, data_end);
    if verify {
        let computed = crc32(&input[pos..data_end]);
        if stored != computed {
            return Err(BlockError::ChecksumMismatch { expected: stored, computed });
        }
    }
    Ok(RawBlock { header, params: [w0, w1, w2], data, checksum: Some(stored), end: data_end + 4 })
}

/// Every block that parses spans, up to its CRC32, exactly its header,
/// its parameters and its payload; the CRC32 covers that span.
pub proof fn lemma_block_span(s: Seq<u8>, pos: int, kind: BlockKind, crc: bool, verify: bool)
    requires
        spec_checked_block(s, pos, kind, crc, verify) is Ok,
    ensures
        ({
            let l = spec_checked_block(s, pos, kind, crc, verify)->Ok_0;
            &&& l.start == pos
            &&& spec_le_u16(s, pos) == kind.spec_id()
            &&& pos < l.end <= s.len()
            &&& l.data_end - l.start == l.header.spec_size_in_bytes() + kind.spec_param_size()
                + l.header.spec_payload_size()
            &&& l.data_end <= s.len()
            &&& (crc ==> l.checksum is Some && l.end == l.data_end + 4)
            &&& (!crc ==> l.checksum is None && l.end == l.data_end)
        }),
{
    reveal(spec_checked_block);
}

/// With checking on, a block whose framing reads is refused with
/// `ChecksumMismatch` exactly when the CRC32 of the bytes it covers differs
/// from the stored one; otherwise checking changes nothing.
pub proof fn lemma_checksum_decides(s: Seq<u8>, pos: int, kind: BlockKind)
    requires
        spec_block(s, pos, kind, true) is Ok,
    ensures
        ({
            let l = spec_block(s, pos, kind, true)->Ok_0;
            let stored = l.checksum->Some_0;
            let computed = crc32_of(s.subrange(pos, l.data_end));
            &&& spec_checked_block(s, pos, kind, true, false) == Ok::<BlockLayout, BlockError>(l)
            &&& (stored != computed ==> spec_checked_block(s, pos, kind, true, true)
                == Err::<BlockLayout, BlockError>(BlockError::ChecksumMismatch { expected: stored, computed }))
            &&& (stored == computed ==> spec_checked_block(s, pos, kind, true, true) == Ok::<BlockLayout, BlockError>(l))
        }),
{
    reveal(spec_checked_block);
}

} // verus!

//! The blocks whose parameters are a single encoding word: file metadata,
//! printer metadata, print metadata, slicer and G-code.

use vstd::prelude::*;

use crate::block::parse_block;
use crate::block::raw_matches;
use crate::block::spec_checked_block;
use crate::block::BlockError;
use crate::block::BlockHeader;
use crate::block::BlockKind;
use crate::block::BlockLayout;
use crate::block::RawBlock;
use crate::bytes::spec_le_u16;
use crate::default_params::encoding_of;
use crate::default_params::Param;
use crate::file_header::ChecksumType;

verus! {

/// The parts of a block that every block record holds agree with the
/// layout found in `s`, its encoding word included.
pub open spec fn data_block_matches(
    header: BlockHeader,
    param: Param,
    data: &[u8],
    checksum: Option<u32>,
    s: Seq<u8>,
    l: BlockLayout,
) -> bool {
    &&& header == l.header
    &&& header.wf()
    &&& param.encoding == encoding_of(spec_le_u16(s, l.param_start))
    &&& data@ == s.subrange(l.data_start, l.data_end)
    &&& checksum == l.checksum
}

/// What a parser of one block at the start of `input` returns: the block
/// and what follows it, or the error that the layout gives.
pub open spec fn block_parse_result<T>(
    input: Seq<u8>,
    kind: BlockKind,
    checksum_type: ChecksumType,
    verify: bool,
    r: Result<(&[u8], T), BlockError>,
    matches: spec_fn(T, BlockLayout) -> bool,
) -> bool {
    match spec_checked_block(input, 0, kind, checksum_type == ChecksumType::Crc32, verify) {
        Ok(l) => r matches Ok((rest, b)) && rest@ == input.subrange(l.end, input.len() as int)
            && matches(b, l),
        Err(e) => r matches Err(e2) && e2 == e,
    }
}

fn param_of(raw: &RawBlock, Ghost(s): Ghost<Seq<u8>>, Ghost(l): Ghost<BlockLayout>, Ghost(kind): Ghost<BlockKind>) -> (r: Param)
    requires
        raw_matches(*raw, s, l, kind),
        kind.accepts_param(spec_le_u16(s, l.param_start)),
        kind != BlockKind::Thumbnail,
    ensures
        r.encoding == encoding_of(spec_le_u16(s, l.param_start)),
{
    Param::from_word(raw.params[0])
}

/// File metadata block (type 0, optional).
#[derive(Clone, Debug, PartialEq, Eq)]
pub struct FileMetadataBlock<'a> {
    pub header: BlockHeader,
    pub param: Param,
    /// The payload as it lies in the input.
    pub data: &'a [u8],
    pub checksum: Option<u32>,
}

impl<'a> FileMetadataBlock<'a> {
    /// The block agrees with the layout found in `s`.
    pub open spec fn matches(self, s: Seq<u8>, l: BlockLayout) -> bool {
        data_block_matches(self.header, self.param, self.data, self.checksum, s, l)
    }

    pub(crate) fn from_raw(raw: RawBlock<'a>, Ghost(s): Ghost<Seq<u8>>, Ghost(l): Ghost<BlockLayout>) -> (r: Self)
        requires
            raw_matches(raw, s, l, BlockKind::FileMetadata),
            BlockKind::FileMetadata.accepts_param(spec_le_u16(s, l.param_start)),
        ensures
            r.matches(s, l),
    {
        let param = param_of(&raw, Ghost(s), Ghost(l), Ghost(BlockKind::FileMetadata));
        FileMetadataBlock { header: raw.header, param, data: raw.data, checksum: raw.checksum }
    }
}

fn file_metadata_block<'a>(input: &'a [u8], checksum_type: ChecksumType, verify: bool) -> (r: Result<(&'a [u8], FileMetadataBlock<'a>), BlockError>)
    ensures
        block_parse_result(input@, BlockKind::FileMetadata, checksum_type, verify, r, |b: FileMetadataBlock<'a>, l: BlockLayout| b.matches(input@, l)),
{
    let crc = match checksum_type {
        ChecksumType::Crc32 => true,
        ChecksumType::NoChecksum => false,
    };
    match parse_block(input, 0, BlockKind::FileMetadata, crc, verify) {
        Ok(raw) => {
            let ghost l = spec_checked_block(input@, 0, BlockKind::FileMetadata, crc, verify)->Ok_0;
            let end = raw.end;
            let b = FileMetadataBlock::from_raw(raw, Ghost(input@), Ghost(l));
            Ok((&input[end..input.len()], b))
        },
        Err(e) => Err(e),
    }
}

/// Parses a file metadata block at the start of `input`, without checking its CRC32.
pub fn file_metadata_parser<'a>(input: &'a [u8], checksum_type: ChecksumType) -> (r: Result<(&'a [u8], FileMetadataBlock<'a>), BlockError>)
    ensures
        block_parse_result(input@, BlockKind::FileMetadata, checksum_type, false, r, |b: FileMetadataBlock<'a>, l: BlockLayout| b.matches(input@, l)),
{
    file_metadata_block(input, checksum_type, false)
}

/// Parses a file metadata block at the start of `input` and checks its CRC32.
pub fn file_metadata_parser_with_checksum<'a>(input: &'a [u8], checksum_type: ChecksumType) -> (r: Result<(&'a [u8], FileMetadataBlock<'a>), BlockError>)
    ensures
        block_parse_result(input@, BlockKind::FileMetadata, checksum_type, true, r, |b: FileMetadataBlock<'a>, l: BlockLayout| b.matches(input@, l)),
{
    file_metadata_block(input, checksum_type, true)
}

/// Printer metadata block (type 3).
#[derive(Clone, Debug, PartialEq, Eq)]
pub struct PrinterMetadataBlock<'a> {
    pub header: BlockHeader,
    pub param: Param,
    /// The payload as it lies in the input.
    pub data: &'a [u8],
    pub checksum: Option<u32>,
}

impl<'a> PrinterMetadataBlock<'a> {
    /// The block agrees with the layout found in `s`.
    pub open spec fn matches(self, s: Seq<u8>, l: BlockLayout) -> bool {
        data_block_matches(self.header, self.param, self.data, self.checksum, s, l)
    }

    pub(crate) fn from_raw(raw: RawBlock<'a>, Ghost(s): Ghost<Seq<u8>>, Ghost(l): Ghost<BlockLayout>) -> (r: Self)
        requires
            raw_matches(raw, s, l, BlockKind::PrinterMetadata),
            BlockKind::PrinterMetadata.accepts_param(spec_le_u16(s, l.param_start)),
        ensures
            r.matches(s, l),
    {
        let param = param_of(&raw, Ghost(s), Ghost(l), Ghost(BlockKind::PrinterMetadata));
        PrinterMetadataBlock { header: raw.header, param, data: raw.data, checksum: raw.checksum }
    }
}

fn printer_metadata_block<'a>(input: &'a [u8], checksum_type: ChecksumType, verify: bool) -> (r: Result<(&'a [u8], PrinterMetadataBlock<'a>), BlockError>)
    ensures
        block_parse_result(input@, BlockKind::PrinterMetadata, checksum_type, verify, r, |b: PrinterMetadataBlock<'a>, l: BlockLayout| b.matches(input@, l)),
{
    let crc = match checksum_type {
        ChecksumType::Crc32 => true,
        ChecksumType::NoChecksum => false,
    };
    match parse_block(input, 0, BlockKind::PrinterMetadata, crc, verify) {
        Ok(raw) => {
            let ghost l = spec_checked_block(input@, 0, BlockKind::PrinterMetadata, crc, verify)->Ok_0;
            let end = raw.end;
            let b = PrinterMetadataBlock::from_raw(raw, Ghost(input@), Ghost(l));
            Ok((&input[end..input.len()], b))
        },
        Err(e) => Err(e),
    }
}

/// Parses a printer metadata block at the start of `input`, without checking its CRC32.
pub fn printer_metadata_parser<'a>(input: &'a [u8], checksum_type: ChecksumType) -> (r: Result<(&'a [u8], PrinterMetadataBlock<'a>), BlockError>)
    ensures
        block_parse_result(input@, BlockKind::PrinterMetadata, checksum_type, false, r, |b: PrinterMetadataBlock<'a>, l: BlockLayout| b.matches(input@, l)),
{
    printer_metadata_block(input, checksum_type, false)
}

/// Parses a printer metadata block at the start of `input` and checks its CRC32.
pub fn printer_metadata_parser_with_checksum<'a>(input: &'a [u8], checksum_type: ChecksumType) -> (r: Result<(&'a [u8], PrinterMetadataBlock<'a>), BlockError>)
    ensures
        block_parse_result(input@, BlockKind::PrinterMetadata, checksum_type, true, r, |b: PrinterMetadataBlock<'a>, l: BlockLayout| b.matches(input@, l)),
{
    printer_metadata_block(input, checksum_type, true)
}

/// Print metadata block (type 4): a table of `key = value` lines.
#[derive(Clone, Debug, PartialEq, Eq)]
pub struct PrintMetadataBlock<'a> {
    pub header: BlockHeader,
    pub param: Param,
    /// The payload as it lies in the input.
    pub data: &'a [u8],
    pub checksum: Option<u32>,
}

impl<'a> PrintMetadataBlock<'a> {
    /// The block agrees with the layout found in `s`.
    pub open spec fn matches(self, s: Seq<u8>, l: BlockLayout) -> bool {
        data_block_matches(self.header, self.param, self.data, self.checksum, s, l)
    }

    pub(crate) fn from_raw(raw: RawBlock<'a>, Ghost(s): Ghost<Seq<u8>>, Ghost(l): Ghost<BlockLayout>) -> (r: Self)
        requires
            raw_matches(raw, s, l, BlockKind::PrintMetadata),
            BlockKind::PrintMetadata.accepts_param(spec_le_u16(s, l.param_start)),
        ensures
            r.matches(s, l),
    {
        let param = param_of(&raw, Ghost(s), Ghost(l), Ghost(BlockKind::PrintMetadata));
        PrintMetadataBlock { header: raw.header, param, data: raw.data, checksum: raw.checksum }
    }
}

fn print_metadata_block<'a>(input: &'a [u8], checksum_type: ChecksumType, verify: bool) -> (r: Result<(&'a [u8], PrintMetadataBlock<'a>), BlockError>)
    ensures
        block_parse_result(input@, BlockKind::PrintMetadata, checksum_type, verify, r, |b: PrintMetadataBlock<'a>, l: BlockLayout| b.matches(input@, l)),
{
    let crc = match checksum_type {
        ChecksumType::Crc32 => true,
        ChecksumType::NoChecksum => false,
    };
    match parse_block(input, 0, BlockKind::PrintMetadata, crc, verify) {
        Ok(raw) => {
            let ghost l = spec_checked_block(input@, 0, BlockKind::PrintMetadata, crc, verify)->Ok_0;
            let end = raw.end;
            let b = PrintMetadataBlock::from_raw(raw, Ghost(input@), Ghost(l));
            Ok((&input[end..input.len()], b))
        },
        Err(e) => Err(e),
    }
}

/// Parses a print metadata block at the start of `input`, without checking its CRC32.
pub fn print_metadata_parser<'a>(input: &'a [u8], checksum_type: ChecksumType) -> (r: Result<(&'a [u8], PrintMetadataBlock<'a>), BlockError>)
    ensures
        block_parse_result(input@, BlockKind::PrintMetadata, checksum_type, false, r, |b: PrintMetadataBlock<'a>, l: BlockLayout| b.matches(input@, l)),
{
    print_metadata_block(input, checksum_type, false)
}

/// Parses a print metadata block at the start of `input` and checks its CRC32.
pub fn print_metadata_parser_with_checksum<'a>(input: &'a [u8], checksum_type: ChecksumType) -> (r: Result<(&'a [u8], PrintMetadataBlock<'a>), BlockError>)
    ensures
        block_parse_result(input@, BlockKind::PrintMetadata, checksum_type, true, r, |b: PrintMetadataBlock<'a>, l: BlockLayout| b.matches(input@, l)),
{
    print_metadata_block(input, checksum_type, true)
}

/// Slicer metadata block (type 2).
#[derive(Clone, Debug, PartialEq, Eq)]
pub struct SlicerBlock<'a> {
    pub header: BlockHeader,
    pub param: Param,
    /// The payload as it lies in the input.
    pub data: &'a [u8],
    pub checksum: Option<u32>,
}

impl<'a> SlicerBlock<'a> {
    /// The block agrees with the layout found in `s`.
    pub open spec fn matches(self, s: Seq<u8>, l: BlockLayout) -> bool {
        data_block_matches(self.header, self.param, self.data, self.checksum, s, l)
    }

    pub(crate) fn from_raw(raw: RawBlock<'a>, Ghost(s): Ghost<Seq<u8>>, Ghost(l): Ghost<BlockLayout>) -> (r: Self)
        requires
            raw_matches(raw, s, l, BlockKind::Slicer),
            BlockKind::Slicer.accepts_param(spec_le_u16(s, l.param_start)),
        ensures
            r.matches(s, l),
    {
        let param = param_of(&raw, Ghost(s), Ghost(l), Ghost(BlockKind::Slicer));
        SlicerBlock { header: raw.header, param, data: raw.data, checksum: raw.checksum }
    }
}

fn slicer_block<'a>(input: &'a [u8], checksum_type: ChecksumType, verify: bool) -> (r: Result<(&'a [u8], SlicerBlock<'a>), BlockError>)
    ensures
        block_parse_result(input@, BlockKind::Slicer, checksum_type, verify, r, |b: SlicerBlock<'a>, l: BlockLayout| b.matches(input@, l)),
{
    let crc = match checksum_type {
        ChecksumType::Crc32 => true,
        ChecksumType::NoChecksum => false,
    };
    match parse_block(input, 0, BlockKind::Slicer, crc, verify) {
        Ok(raw) => {
            let ghost l = spec_checked_block(input@, 0, BlockKind::Slicer, crc, verify)->Ok_0;
            let end = raw.end;
            let b = SlicerBlock::from_raw(raw, Ghost(input@), Ghost(l));
            Ok((&input[end..input.len()], b))
        },
        Err(e) => Err(e),
    }
}

/// Parses a slicer block at the start of `input`, without checking its CRC32.
pub fn slicer_parser<'a>(input: &'a [u8], checksum_type: ChecksumType) -> (r: Result<(&'a [u8], SlicerBlock<'a>), BlockError>)
    ensures
        block_parse_result(input@, BlockKind::Slicer, checksum_type, false, r, |b: SlicerBlock<'a>, l: BlockLayout| b.matches(input@, l)),
{
    slicer_block(input, checksum_type, false)
}

/// Parses a slicer block at the start of `input` and checks its CRC32.
pub fn slicer_parser_with_checksum<'a>(input: &'a [u8], checksum_type: ChecksumType) -> (r: Result<(&'a [u8], SlicerBlock<'a>), BlockError>)
    ensures
        block_parse_result(input@, BlockKind::Slicer, checksum_type, true, r, |b: SlicerBlock<'a>, l: BlockLayout| b.matches(input@, l)),
{
    slicer_block(input, checksum_type, true)
}

/// A block of G-code commands (type 1), possibly encoded.
#[derive(Clone, Debug, PartialEq, Eq)]
pub struct GCodeBlock<'a> {
    pub header: BlockHeader,
    pub param: Param,
    /// The payload as it lies in the input.
    pub data: &'a [u8],
    pub checksum: Option<u32>,
}

impl<'a> GCodeBlock<'a> {
    /// The block agrees with the layout found in `s`.
    pub open spec fn matches(self, s: Seq<u8>, l: BlockLayout) -> bool {
        data_block_matches(self.header, self.param, self.data, self.checksum, s, l)
    }

    pub(crate) fn from_raw(raw: RawBlock<'a>, Ghost(s): Ghost<Seq<u8>>, Ghost(l): Ghost<BlockLayout>) -> (r: Self)
        requires
            raw_matches(raw, s, l, BlockKind::GCode),
            BlockKind::GCode.accepts_param(spec_le_u16(s, l.param_start)),
        ensures
            r.matches(s, l),
    {
        let param = param_of(&raw, Ghost(s), Ghost(l), Ghost(BlockKind::GCode));
        GCodeBlock { header: raw.header, param, data: raw.data, checksum: raw.checksum }
    }
}

fn gcode_block<'a>(input: &'a [u8], checksum_type: ChecksumType, verify: bool) -> (r: Result<(&'a [u8], GCodeBlock<'a>), BlockError>)
    ensures
        block_parse_result(input@, BlockKind::GCode, checksum_type, verify, r, |b: GCodeBlock<'a>, l: BlockLayout| b.matches(input@, l)),
{
    let crc = match checksum_type {
        ChecksumType::Crc32 => true,
        ChecksumType::NoChecksum => false,
    };
    match parse_block(input, 0, BlockKind::GCode, crc, verify) {
        Ok(raw) => {
            let ghost l = spec_checked_block(input@, 0, BlockKind::GCode, crc, verify)->Ok_0;
            let end = raw.end;
            let b = GCodeBlock::from_raw(raw, Ghost(input@), Ghost(l));
            Ok((&input[end..input.len()], b))
        },
        Err(e) => Err(e),
    }
}

/// Parses a G-code block at the start of `input`, without checking its CRC32.
pub fn gcode_parser<'a>(input: &'a [u8], checksum_type: ChecksumType) -> (r: Result<(&'a [u8], GCodeBlock<'a>), BlockError>)
    ensures
        block_parse_result(input@, BlockKind::GCode, checksum_type, false, r, |b: GCodeBlock<'a>, l: BlockLayout| b.matches(input@, l)),
{
    gcode_block(input, checksum_type, false)
}

/// Parses a G-code block at the start of `input` and checks its CRC32.
pub fn gcode_parser_with_checksum<'a>(input: &'a [u8], checksum_type: ChecksumType) -> (r: Result<(&'a [u8], GCodeBlock<'a>), BlockError>)
    ensures
        block_parse_result(input@, BlockKind::GCode, checksum_type, true, r, |b: GCodeBlock<'a>, l: BlockLayout| b.matches(input@, l)),
{
    gcode_block(input, checksum_type, true)
}

} // verus!

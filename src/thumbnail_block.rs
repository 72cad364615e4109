//! Thumbnail blocks: an embedded image, kept as opaque bytes with a format tag.

use vstd::prelude::*;

use crate::block::parse_block;
use crate::block::raw_matches;
use crate::block::spec_checked_block;
use crate::block::BlockError;
use crate::block::BlockHeader;
use crate::block::BlockKind;
use crate::block::BlockLayout;
use crate::block::RawBlock;
use crate::bytes::spec_le_u16;
use crate::data_blocks::block_parse_result;
use crate::file_header::ChecksumType;

verus! {

/// Image format of a thumbnail.
#[derive(Clone, Copy, Debug, PartialEq, Eq, Structural)]
pub enum Format {
    /// 0
    Png,
    /// 1
    Jpg,
    /// 2
    Qoi,
}

/// The format that a wire id in `0..=2` stands for.
pub open spec fn format_of(id: int) -> Format {
    if id == 0 {
        Format::Png
    } else if id == 1 {
        Format::Jpg
    } else {
        Format::Qoi
    }
}

impl Format {
    /// The format of a wire id, or `None` for an unknown id.
    pub fn try_from(value: u16) -> (r: Option<Format>)
        ensures
            value <= 2 ==> r == Some(format_of(value as int)),
            value > 2 ==> r is None,
    {
        match value {
            0 => Some(Format::Png),
            1 => Some(Format::Jpg),
            2 => Some(Format::Qoi),
            _ => None,
        }
    }
}

/// Thumbnail parameters: format, width and height.
#[derive(Clone, Copy, Debug, PartialEq, Eq, Structural)]
pub struct Param {
    pub format: Format,
    pub width: u16,
    pub height: u16,
}

/// A thumbnail block (type 5).
#[derive(Clone, Debug, PartialEq, Eq)]
pub struct ThumbnailBlock<'a> {
    pub header: BlockHeader,
    pub param: Param,
    /// The image bytes as they lie in the input.
    pub data: &'a [u8],
    pub checksum: Option<u32>,
}

impl<'a> ThumbnailBlock<'a> {
    /// The block agrees with the layout found in `s`.
    pub open spec fn matches(self, s: Seq<u8>, l: BlockLayout) -> bool {
        &&& self.header == l.header
        &&& self.header.wf()
        &&& self.param.format == format_of(spec_le_u16(s, l.param_start))
        &&& self.param.width as int == spec_le_u16(s, l.param_start + 2)
        &&& self.param.height as int == spec_le_u16(s, l.param_start + 4)
        &&& self.data@ == s.subrange(l.data_start, l.data_end)
        &&& self.checksum == l.checksum
    }

    pub(crate) fn from_raw(raw: RawBlock<'a>, Ghost(s): Ghost<Seq<u8>>, Ghost(l): Ghost<BlockLayout>) -> (r: Self)
        requires
            raw_matches(raw, s, l, BlockKind::Thumbnail),
            BlockKind::Thumbnail.accepts_param(spec_le_u16(s, l.param_start)),
        ensures
            r.matches(s, l),
    {
        let format = match raw.params[0] {
            0 => Format::Png,
            1 => Format::Jpg,
            _ => Format::Qoi,
        };
        let param = Param { format, width: raw.params[1], height: raw.params[2] };
        ThumbnailBlock { header: raw.header, param, data: raw.data, checksum: raw.checksum }
    }
}

fn thumbnail_block<'a>(input: &'a [u8], checksum_type: ChecksumType, verify: bool) -> (r: Result<(&'a [u8], ThumbnailBlock<'a>), BlockError>)
    ensures
        block_parse_result(input@, BlockKind::Thumbnail, checksum_type, verify, r, |b: ThumbnailBlock<'a>, l: BlockLayout| b.matches(input@, l)),
{
    let crc = match checksum_type {
        ChecksumType::Crc32 => true,
        ChecksumType::NoChecksum => false,
    };
    match parse_block(input, 0, BlockKind::Thumbnail, crc, verify) {
        Ok(raw) => {
            let ghost l = spec_checked_block(input@, 0, BlockKind::Thumbnail, crc, verify)->Ok_0;
            let end = raw.end;
            let b = ThumbnailBlock::from_raw(raw, Ghost(input@), Ghost(l));
            Ok((&input[end..input.len()], b))
        },
        Err(e) => Err(e),
    }
}

/// Parses a thumbnail block at the start of `input`, without checking its CRC32.
pub fn thumbnail_parser<'a>(input: &'a [u8], checksum_type: ChecksumType) -> (r: Result<(&'a [u8], ThumbnailBlock<'a>), BlockError>)
    ensures
        block_parse_result(input@, BlockKind::Thumbnail, checksum_type, false, r, |b: ThumbnailBlock<'a>, l: BlockLayout| b.matches(input@, l)),
{
    thumbnail_block(input, checksum_type, false)
}

/// Parses a thumbnail block at the start of `input` and checks its CRC32.
pub fn thumbnail_parser_with_checksum<'a>(input: &'a [u8], checksum_type: ChecksumType) -> (r: Result<(&'a [u8], ThumbnailBlock<'a>), BlockError>)
    ensures
        block_parse_result(input@, BlockKind::Thumbnail, checksum_type, true, r, |b: ThumbnailBlock<'a>, l: BlockLayout| b.matches(input@, l)),
{
    thumbnail_block(input, checksum_type, true)
}

} // verus!

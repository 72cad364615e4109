//! The whole container: header, then blocks in a fixed order.
//!
//! `file := header, file_metadata?, printer_metadata, thumbnail*,
//! print_metadata, slicer, gcode+, end of input`

use vstd::prelude::*;

use crate::block::lemma_block_span;
use crate::block::parse_block;
use crate::block::spec_checked_block;
use crate::block::BlockError;
use crate::block::BlockKind;
use crate::block::BlockLayout;
use crate::bytes::read_le_u16;
use crate::bytes::spec_le_u16;
use crate::data_blocks::FileMetadataBlock;
use crate::data_blocks::GCodeBlock;
use crate::data_blocks::PrintMetadataBlock;
use crate::data_blocks::PrinterMetadataBlock;
use crate::data_blocks::SlicerBlock;
use crate::file_header::file_header_parser;
use crate::file_header::spec_file_header;
use crate::file_header::FileHeader;
use crate::thumbnail_block::ThumbnailBlock;

verus! {

/// Where each block of a valid file lies.
pub struct FileLayout {
    pub header: FileHeader,
    pub file_metadata: Option<BlockLayout>,
    pub printer_metadata: BlockLayout,
    pub thumbnails: Seq<BlockLayout>,
    pub print_metadata: BlockLayout,
    pub slicer: BlockLayout,
    pub gcode: Seq<BlockLayout>,
}

/// At least two bytes remain at `pos` and they hold the type id `id`.
pub open spec fn next_id_is(s: Seq<u8>, pos: int, id: int) -> bool {
    0 <= pos && pos + 2 <= s.len() && spec_le_u16(s, pos) == id
}

/// The run of thumbnail blocks that starts at `pos`, and where it ends.
pub open spec fn spec_thumbnails(s: Seq<u8>, pos: int, crc: bool, verify: bool) -> Result<(Seq<BlockLayout>, int), BlockError>
    decreases s.len() - pos,
{
    if !next_id_is(s, pos, 5) {
        Ok((seq![], pos))
    } else {
        match spec_checked_block(s, pos, BlockKind::Thumbnail, crc, verify) {
            Err(e) => Err(e),
            Ok(l) => if l.end <= pos || l.end > s.len() {
                Err(BlockError::ShortInput)
            } else {
                match spec_thumbnails(s, l.end, crc, verify) {
                    Err(e) => Err(e),
                    Ok((rest, end)) => Ok((seq![l] + rest, end)),
                }
            },
        }
    }
}

/// The G-code blocks from `pos` to the end of the input: one or more.
pub open spec fn spec_gcode_blocks(s: Seq<u8>, pos: int, crc: bool, verify: bool) -> Result<Seq<BlockLayout>, BlockError>
    decreases s.len() - pos,
{
    match spec_checked_block(s, pos, BlockKind::GCode, crc, verify) {
        Err(e) => Err(e),
        Ok(l) => if l.end == s.len() {
            Ok(seq![l])
        } else if l.end <= pos || l.end > s.len() {
            Err(BlockError::ShortInput)
        } else {
            match spec_gcode_blocks(s, l.end, crc, verify) {
                Err(e) => Err(e),
                Ok(rest) => Ok(seq![l] + rest),
            }
        },
    }
}

/// The optional file metadata block right after the header.
pub open spec fn spec_file_metadata(s: Seq<u8>, crc: bool, verify: bool) -> Result<Option<BlockLayout>, BlockError> {
    if next_id_is(s, 10, 0) {
        match spec_checked_block(s, 10, BlockKind::FileMetadata, crc, verify) {
            Err(e) => Err(e),
            Ok(l) => Ok(Some(l)),
        }
    } else {
        Ok(None)
    }
}

/// The layout of a whole file, every CRC32 checked when `verify` holds,
/// or the first error met reading it from the front.
pub open spec fn spec_file(s: Seq<u8>, verify: bool) -> Result<FileLayout, BlockError> {
    match spec_file_header(s) {
        Err(e) => Err(e),
        Ok(h) => {
            let crc = h.spec_has_crc();
            match spec_file_metadata(s, crc, verify) {
                Err(e) => Err(e),
                Ok(fm) => {
                    let after_metadata = match fm { Some(l) => l.end, None => 10 };
                    match spec_checked_block(s, after_metadata, BlockKind::PrinterMetadata, crc, verify) {
                        Err(e) => Err(e),
                        Ok(pm) => match spec_thumbnails(s, pm.end, crc, verify) {
                            Err(e) => Err(e),
                            Ok((thumbs, after_thumbnails)) => match spec_checked_block(s, after_thumbnails, BlockKind::PrintMetadata, crc, verify) {
                                Err(e) => Err(e),
                                Ok(prm) => match spec_checked_block(s, prm.end, BlockKind::Slicer, crc, verify) {
                                    Err(e) => Err(e),
                                    Ok(sl) => match spec_gcode_blocks(s, sl.end, crc, verify) {
                                        Err(e) => Err(e),
                                        Ok(gc) => Ok(FileLayout {
                                            header: h,
                                            file_metadata: fm,
                                            printer_metadata: pm,
                                            thumbnails: thumbs,
                                            print_metadata: prm,
                                            slicer: sl,
                                            gcode: gc,
                                        }),
                                    },
                                },
                            },
                        },
                    }
                },
            }
        },
    }
}

/// A decoded binary G-code file (`.bgcode`).
#[derive(Clone, Debug, PartialEq, Eq)]
pub struct Bgcode<'a> {
    pub fh: FileHeader,
    pub file_metadata: Option<FileMetadataBlock<'a>>,
    pub printer_metadata: PrinterMetadataBlock<'a>,
    pub thumbnails: Vec<ThumbnailBlock<'a>>,
    pub print_metadata: PrintMetadataBlock<'a>,
    pub slicer: SlicerBlock<'a>,
    pub gcode: Vec<GCodeBlock<'a>>,
}

impl<'a> Bgcode<'a> {
    /// Every block agrees with its place in the layout found in `s`.
    pub open spec fn matches(self, s: Seq<u8>, f: FileLayout) -> bool {
        &&& self.fh == f.header
        &&& match (self.file_metadata, f.file_metadata) {
            (Some(b), Some(l)) => b.matches(s, l),
            (None, None) => true,
            _ => false,
        }
        &&& self.printer_metadata.matches(s, f.printer_metadata)
        &&& self.thumbnails@.len() == f.thumbnails.len()
        &&& (forall|i: int| 0 <= i < f.thumbnails.len() ==> #[trigger] self.thumbnails@[i].matches(s, f.thumbnails[i]))
        &&& self.print_metadata.matches(s, f.print_metadata)
        &&& self.slicer.matches(s, f.slicer)
        &&& self.gcode@.len() == f.gcode.len()
        &&& (forall|i: int| 0 <= i < f.gcode.len() ==> #[trigger] self.gcode@[i].matches(s, f.gcode[i]))
    }
}

fn next_id_equals(input: &[u8], pos: usize, id: u16) -> (r: bool)
    requires
        pos <= input@.len(),
    ensures
        r == next_id_is(input@, pos as int, id as int),
{
    input.len() - pos >= 2 && read_le_u16(input, pos) == id
}

fn parse_thumbnails<'a>(input: &'a [u8], pos: usize, crc: bool, verify: bool) -> (r: Result<(Vec<ThumbnailBlock<'a>>, usize), BlockError>)
    requires
        pos <= input@.len(),
    ensures
        match spec_thumbnails(input@, pos as int, crc, verify) {
            Ok((ls, end)) => r matches Ok((v, e)) && e == end && v@.len() == ls.len()
                && forall|i: int| 0 <= i < ls.len() ==> #[trigger] v@[i].matches(input@, ls[i]),
            Err(e) => r matches Err(e2) && e2 == e,
        },
        r matches Ok((_, e)) ==> pos <= e <= input@.len(),
{
    let mut v: Vec<ThumbnailBlock<'a>> = Vec::new();
    let ghost mut ls: Seq<BlockLayout> = seq![];
    let mut cur = pos;
    loop
        invariant
            pos <= cur <= input@.len(),
            v@.len() == ls.len(),
            forall|i: int| 0 <= i < ls.len() ==> #[trigger] v@[i].matches(input@, ls[i]),
            spec_thumbnails(input@, pos as int, crc, verify) == match spec_thumbnails(input@, cur as int, crc, verify) {
                Ok((rest, end)) => Ok((ls + rest, end)),
                Err(e) => Err(e),
            },
        decreases input@.len() - cur,
    {
        if !next_id_equals(input, cur, 5) {
            assert(ls + seq![] =~= ls);
            return Ok((v, cur));
        }
        let raw = match parse_block(input, cur, BlockKind::Thumbnail, crc, verify) {
            Ok(raw) => raw,
            Err(e) => return Err(e),
        };
        let ghost l = spec_checked_block(input@, cur as int, BlockKind::Thumbnail, crc, verify)->Ok_0;
        if raw.end <= cur || raw.end > input.len() {
            return Err(BlockError::ShortInput);
        }
        let end = raw.end;
        let b = ThumbnailBlock::from_raw(raw, Ghost(input@), Ghost(l));
        v.push(b);
        proof {
            match spec_thumbnails(input@, end as int, crc, verify) {
                Ok((rest, e)) => {
                    assert(ls + (seq![l] + rest) =~= ls.push(l) + rest);
                },
                Err(e) => {},
            }
            ls = ls.push(l);
        }
        cur = end;
    }
}

fn parse_gcode_blocks<'a>(input: &'a [u8], pos: usize, crc: bool, verify: bool) -> (r: Result<Vec<GCodeBlock<'a>>, BlockError>)
    requires
        pos <= input@.len(),
    ensures
        match spec_gcode_blocks(input@, pos as int, crc, verify) {
            Ok(ls) => r matches Ok(v) && v@.len() == ls.len()
                && forall|i: int| 0 <= i < ls.len() ==> #[trigger] v@[i].matches(input@, ls[i]),
            Err(e) => r matches Err(e2) && e2 == e,
        },
{
    let mut v: Vec<GCodeBlock<'a>> = Vec::new();
    let ghost mut ls: Seq<BlockLayout> = seq![];
    let mut cur = pos;
    loop
        invariant
            pos <= cur <= input@.len(),
            v@.len() == ls.len(),
            forall|i: int| 0 <= i < ls.len() ==> #[trigger] v@[i].matches(input@, ls[i]),
            spec_gcode_blocks(input@, pos as int, crc, verify) == match spec_gcode_blocks(input@, cur as int, crc, verify) {
                Ok(rest) => Ok(ls + rest),
                Err(e) => Err(e),
            },
        decreases input@.len() - cur,
    {
        let raw = match parse_block(input, cur, BlockKind::GCode, crc, verify) {
            Ok(raw) => raw,
            Err(e) => return Err(e),
        };
        let ghost l = spec_checked_block(input@, cur as int, BlockKind::GCode, crc, verify)->Ok_0;
        let end = raw.end;
        let b = GCodeBlock::from_raw(raw, Ghost(input@), Ghost(l));
        v.push(b);
        if end == input.len() {
            assert(ls + seq![l] =~= ls.push(l));
            return Ok(v);
        }
        if end <= cur || end > input.len() {
            return Err(BlockError::ShortInput);
        }
        proof {
            match spec_gcode_blocks(input@, end as int, crc, verify) {
                Ok(rest) => {
                    assert(ls + (seq![l] + rest) =~= ls.push(l) + rest);
                },
                Err(e) => {},
            }
            ls = ls.push(l);
        }
        cur = end;
    }
}


fn parse_file<'a>(input: &'a [u8], verify: bool) -> (r: Result<Bgcode<'a>, BlockError>)
    ensures
        match spec_file(input@, verify) {
            Ok(f) => r matches Ok(b) && b.matches(input@, f),
            Err(e) => r matches Err(e2) && e2 == e,
        },
{
    let fh = match file_header_parser(input) {
        Ok((_, fh)) => fh,
        Err(e) => return Err(e),
    };
    let crc = fh.has_crc();
    let ghost s = input@;
    let mut pos: usize = 10;
    let file_metadata = if next_id_equals(input, 10, 0) {
        match parse_block(input, 10, BlockKind::FileMetadata, crc, verify) {
            Ok(raw) => {
                let ghost l = spec_checked_block(s, 10, BlockKind::FileMetadata, crc, verify)->Ok_0;
                pos = raw.end;
                Some(FileMetadataBlock::from_raw(raw, Ghost(s), Ghost(l)))
            },
            Err(e) => return Err(e),
        }
    } else {
        None
    };
    let printer_metadata = match parse_block(input, pos, BlockKind::PrinterMetadata, crc, verify) {
        Ok(raw) => {
            let ghost l = spec_checked_block(s, pos as int, BlockKind::PrinterMetadata, crc, verify)->Ok_0;
            pos = raw.end;
            PrinterMetadataBlock::from_raw(raw, Ghost(s), Ghost(l))
        },
        Err(e) => return Err(e),
    };
    let thumbnails = match parse_thumbnails(input, pos, crc, verify) {
        Ok((v, end)) => {
            pos = end;
            v
        },
        Err(e) => return Err(e),
    };
    let print_metadata = match parse_block(input, pos, BlockKind::PrintMetadata, crc, verify) {
        Ok(raw) => {
            let ghost l = spec_checked_block(s, pos as int, BlockKind::PrintMetadata, crc, verify)->Ok_0;
            pos = raw.end;
            PrintMetadataBlock::from_raw(raw, Ghost(s), Ghost(l))
        },
        Err(e) => return Err(e),
    };
    let slicer = match parse_block(input, pos, BlockKind::Slicer, crc, verify) {
        Ok(raw) => {
            let ghost l = spec_checked_block(s, pos as int, BlockKind::Slicer, crc, verify)->Ok_0;
            pos = raw.end;
            SlicerBlock::from_raw(raw, Ghost(s), Ghost(l))
        },
        Err(e) => return Err(e),
    };
    let gcode = match parse_gcode_blocks(input, pos, crc, verify) {
        Ok(v) => v,
        Err(e) => return Err(e),
    };
    Ok(Bgcode { fh, file_metadata, printer_metadata, thumbnails, print_metadata, slicer, gcode })
}

/// Parses a whole binary G-code file and checks the CRC32 of every block
/// (when the header enables checksums). What remains after the last G-code
/// block is always empty: trailing bytes are an error.
pub fn bgcode_parser<'a>(input: &'a [u8]) -> (r: Result<(&'a [u8], Bgcode<'a>), BlockError>)
    ensures
        match spec_file(input@, true) {
            Ok(f) => r matches Ok((rest, b)) && rest@.len() == 0 && b.matches(input@, f),
            Err(e) => r matches Err(e2) && e2 == e,
        },
{
    match parse_file(input, true) {
        Ok(b) => Ok((&input[input.len()..input.len()], b)),
        Err(e) => Err(e),
    }
}

/// Parses a whole binary G-code file, reading but not checking the CRC32s.
pub fn bgcode_parser_fast<'a>(input: &'a [u8]) -> (r: Result<(&'a [u8], Bgcode<'a>), BlockError>)
    ensures
        match spec_file(input@, false) {
            Ok(f) => r matches Ok((rest, b)) && rest@.len() == 0 && b.matches(input@, f),
            Err(e) => r matches Err(e2) && e2 == e,
        },
{
    match parse_file(input, false) {
        Ok(b) => Ok((&input[input.len()..input.len()], b)),
        Err(e) => Err(e),
    }
}

/// The G-code blocks of a binary G-code file, read without checking CRC32s.
pub fn extract_gcode<'a>(input: &'a [u8]) -> (r: Result<(&'a [u8], Vec<GCodeBlock<'a>>), BlockError>)
    ensures
        match spec_file(input@, false) {
            Ok(f) => r matches Ok((rest, v)) && rest@.len() == 0 && v@.len() == f.gcode.len()
                && forall|i: int| 0 <= i < f.gcode.len() ==> #[trigger] v@[i].matches(input@, f.gcode[i]),
            Err(e) => r matches Err(e2) && e2 == e,
        },
{
    match parse_file(input, false) {
        Ok(b) => Ok((&input[input.len()..input.len()], b.gcode)),
        Err(e) => Err(e),
    }
}

/// The type ids read at the start of each block, in order.
pub open spec fn layout_ids(s: Seq<u8>, ls: Seq<BlockLayout>) -> Seq<int> {
    ls.map_values(|l: BlockLayout| spec_le_u16(s, l.start))
}

/// The type ids of every block of a file, in the order they lie in it.
pub open spec fn file_block_ids(s: Seq<u8>, f: FileLayout) -> Seq<int> {
    let fm = match f.file_metadata {
        Some(l) => seq![spec_le_u16(s, l.start)],
        None => seq![],
    };
    fm + seq![spec_le_u16(s, f.printer_metadata.start)] + layout_ids(s, f.thumbnails)
        + seq![spec_le_u16(s, f.print_metadata.start), spec_le_u16(s, f.slicer.start)]
        + layout_ids(s, f.gcode)
}

/// The block's header, parameters and payload fill exactly the span that
/// its CRC32 covers.
pub open spec fn span_ok(l: BlockLayout, kind: BlockKind) -> bool {
    l.data_end - l.start == l.header.spec_size_in_bytes() + kind.spec_param_size() + l.header.spec_payload_size()
}

proof fn lemma_thumbnail_ids(s: Seq<u8>, pos: int, crc: bool, verify: bool)
    requires
        spec_thumbnails(s, pos, crc, verify) is Ok,
    ensures
        ({
            let (ls, end) = spec_thumbnails(s, pos, crc, verify)->Ok_0;
            &&& layout_ids(s, ls) =~= Seq::new(ls.len(), |i: int| 5int)
            &&& pos <= end
            &&& forall|i: int| 0 <= i < ls.len() ==> span_ok(#[trigger] ls[i], BlockKind::Thumbnail)
        }),
    decreases s.len() - pos,
{
    if next_id_is(s, pos, 5) {
        let l = spec_checked_block(s, pos, BlockKind::Thumbnail, crc, verify)->Ok_0;
        lemma_block_span(s, pos, BlockKind::Thumbnail, crc, verify);
        lemma_thumbnail_ids(s, l.end, crc, verify);
        let (rest, _) = spec_thumbnails(s, l.end, crc, verify)->Ok_0;
        let (ls, _) = spec_thumbnails(s, pos, crc, verify)->Ok_0;
        assert(ls == seq![l] + rest);
        assert(layout_ids(s, ls) =~= seq![5int] + layout_ids(s, rest));
        assert forall|i: int| 0 <= i < ls.len() implies span_ok(#[trigger] ls[i], BlockKind::Thumbnail) by {
            if i > 0 {
                assert(ls[i] == rest[i - 1]);
            }
        }
    }
}

proof fn lemma_gcode_ids(s: Seq<u8>, pos: int, crc: bool, verify: bool)
    requires
        spec_gcode_blocks(s, pos, crc, verify) is Ok,
    ensures
        ({
            let ls = spec_gcode_blocks(s, pos, crc, verify)->Ok_0;
            &&& layout_ids(s, ls) =~= Seq::new(ls.len(), |i: int| 1int)
            &&& ls.len() >= 1
            &&& forall|i: int| 0 <= i < ls.len() ==> span_ok(#[trigger] ls[i], BlockKind::GCode)
        }),
    decreases s.len() - pos,
{
    let l = spec_checked_block(s, pos, BlockKind::GCode, crc, verify)->Ok_0;
    lemma_block_span(s, pos, BlockKind::GCode, crc, verify);
    let ls = spec_gcode_blocks(s, pos, crc, verify)->Ok_0;
    if l.end == s.len() {
        assert(layout_ids(s, ls) =~= seq![1int]);
    } else {
        lemma_gcode_ids(s, l.end, crc, verify);
        let rest = spec_gcode_blocks(s, l.end, crc, verify)->Ok_0;
        assert(ls == seq![l] + rest);
        assert(layout_ids(s, ls) =~= seq![1int] + layout_ids(s, rest));
        assert forall|i: int| 0 <= i < ls.len() implies span_ok(#[trigger] ls[i], BlockKind::GCode) by {
            if i > 0 {
                assert(ls[i] == rest[i - 1]);
            }
        }
    }
}

/// In every file that parses, the block type ids come in the order
/// `0?, 3, 5*, 4, 2, 1+`, and every block's header, parameters and payload
/// fill exactly the span that its CRC32 covers.
pub proof fn lemma_block_order(s: Seq<u8>, verify: bool)
    requires
        spec_file(s, verify) is Ok,
    ensures
        ({
            let f = spec_file(s, verify)->Ok_0;
            let fm = if f.file_metadata is Some { seq![0int] } else { Seq::<int>::empty() };
            &&& f.gcode.len() >= 1
            &&& (f.file_metadata matches Some(l) ==> span_ok(l, BlockKind::FileMetadata))
            &&& span_ok(f.printer_metadata, BlockKind::PrinterMetadata)
            &&& (forall|i: int| 0 <= i < f.thumbnails.len() ==> span_ok(#[trigger] f.thumbnails[i], BlockKind::Thumbnail))
            &&& span_ok(f.print_metadata, BlockKind::PrintMetadata)
            &&& span_ok(f.slicer, BlockKind::Slicer)
            &&& (forall|i: int| 0 <= i < f.gcode.len() ==> span_ok(#[trigger] f.gcode[i], BlockKind::GCode))
            &&& file_block_ids(s, f) == fm + seq![3int] + Seq::new(f.thumbnails.len(), |i: int| 5int)
                + seq![4int, 2int] + Seq::new(f.gcode.len(), |i: int| 1int)
        }),
{
    let f = spec_file(s, verify)->Ok_0;
    let crc = f.header.spec_has_crc();
    let after_metadata = match f.file_metadata {
        Some(l) => {
            lemma_block_span(s, 10, BlockKind::FileMetadata, crc, verify);
            l.end
        },
        None => 10,
    };
    lemma_block_span(s, after_metadata, BlockKind::PrinterMetadata, crc, verify);
    let pm = f.printer_metadata;
    lemma_thumbnail_ids(s, pm.end, crc, verify);
    let after_thumbnails = spec_thumbnails(s, pm.end, crc, verify)->Ok_0.1;
    lemma_block_span(s, after_thumbnails, BlockKind::PrintMetadata, crc, verify);
    lemma_block_span(s, f.print_metadata.end, BlockKind::Slicer, crc, verify);
    lemma_gcode_ids(s, f.slicer.end, crc, verify);
    let fm = if f.file_metadata is Some { seq![0int] } else { Seq::<int>::empty() };
    assert(file_block_ids(s, f) =~= fm + seq![3int] + Seq::new(f.thumbnails.len(), |i: int| 5int)
        + seq![4int, 2int] + Seq::new(f.gcode.len(), |i: int| 1int));
}

} // verus!

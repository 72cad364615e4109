//! A markdown report of a decoded container: one section per block, with
//! decompressed payloads shown as text.

use vstd::prelude::*;
use vstd::string::StringExecFns;
use vstd::utf8::encode_utf8;
use vstd::utf8::valid_utf8;

use crate::bgcode::Bgcode;
use crate::block::BlockHeader;
use crate::data_blocks::FileMetadataBlock;
use crate::data_blocks::GCodeBlock;
use crate::data_blocks::PrintMetadataBlock;
use crate::data_blocks::PrinterMetadataBlock;
use crate::data_blocks::SlicerBlock;
use crate::default_params::Encoding;
use crate::file_header::ChecksumType;
use crate::file_header::FileHeader;
use crate::inflate::decompress_data_block;
use crate::inflate::spec_data_block;
use crate::thumbnail_block::Format;
use crate::thumbnail_block::ThumbnailBlock;

verus! {

/// The text that `String::from_utf8_lossy` makes of some bytes.
pub uninterp spec fn utf8_lossy_of(b: Seq<u8>) -> Seq<char>;

/// The text that `{:?}` makes of a string: quoted, with escapes.
pub uninterp spec fn debug_quoted_of(s: Seq<char>) -> Seq<char>;

/// Relies on `String::from_utf8_lossy`: the text of the bytes, each invalid
/// sequence replaced; valid UTF-8 comes back as the characters it encodes.
#[verifier::external_body]
fn utf8_lossy(b: &[u8]) -> (r: String)
    ensures
        r@ == utf8_lossy_of(b@),
        valid_utf8(b@) ==> encode_utf8(r@) == b@,
{
    String::from_utf8_lossy(b).into_owned()
}

/// Relies on the `Debug` formatting of `str`: the text in double quotes
/// with its special characters escaped.
#[verifier::external_body]
fn debug_quoted(s: &str) -> (r: String)
    ensures
        r@ == debug_quoted_of(s@),
{
    format!("{s:?}")
}

/// One hexadecimal (upper case) or decimal digit.
pub open spec fn digit_text(d: nat) -> Seq<char> {
    if d == 0 { "0"@ } else if d == 1 { "1"@ } else if d == 2 { "2"@ } else if d == 3 { "3"@ }
    else if d == 4 { "4"@ } else if d == 5 { "5"@ } else if d == 6 { "6"@ } else if d == 7 { "7"@ }
    else if d == 8 { "8"@ } else if d == 9 { "9"@ } else if d == 10 { "A"@ } else if d == 11 { "B"@ }
    else if d == 12 { "C"@ } else if d == 13 { "D"@ } else if d == 14 { "E"@ } else { "F"@ }
}

/// `n` written in hexadecimal (upper case) or decimal, without leading zeros.
pub open spec fn number_text(n: nat, hex: bool) -> Seq<char>
    decreases n,
{
    if hex {
        if n < 16 {
            digit_text(n)
        } else {
            number_text(n / 16, hex) + digit_text(n % 16)
        }
    } else {
        if n < 10 {
            digit_text(n)
        } else {
            number_text(n / 10, hex) + digit_text(n % 10)
        }
    }
}

fn append_digit(f: &mut String, d: u32)
    requires
        d < 16,
    ensures
        final(f)@ == old(f)@ + digit_text(d as nat),
{
    match d {
        0 => f.append("0"), 1 => f.append("1"), 2 => f.append("2"), 3 => f.append("3"),
        4 => f.append("4"), 5 => f.append("5"), 6 => f.append("6"), 7 => f.append("7"),
        8 => f.append("8"), 9 => f.append("9"), 10 => f.append("A"), 11 => f.append("B"),
        12 => f.append("C"), 13 => f.append("D"), 14 => f.append("E"), _ => f.append("F"),
    }
}

/// Appends `n` in hexadecimal or decimal.
fn append_number(f: &mut String, n: u32, hex: bool)
    ensures
        final(f)@ == old(f)@ + number_text(n as nat, hex),
    decreases n,
{
    if hex && n >= 16 {
        append_number(f, n / 16, hex);
        append_digit(f, n % 16);
        assert(final(f)@ =~= old(f)@ + number_text(n as nat, hex));
    } else if !hex && n >= 10 {
        append_number(f, n / 10, hex);
        append_digit(f, n % 10);
        assert(final(f)@ =~= old(f)@ + number_text(n as nat, hex));
    } else {
        append_digit(f, n);
    }
}

/// The checksum line of a block.
pub open spec fn checksum_text(c: Option<u32>) -> Seq<char> {
    match c {
        Some(v) => "Checksum Ox"@ + number_text(v as nat, true) + "\n"@,
        None => "No checksum\n"@,
    }
}

fn append_checksum(f: &mut String, c: Option<u32>)
    ensures
        final(f)@ == old(f)@ + checksum_text(c),
{
    match c {
        Some(v) => {
            f.append("Checksum Ox");
            append_number(f, v, true);
            f.append("\n");
            assert(final(f)@ =~= old(f)@ + checksum_text(c));
        },
        None => f.append("No checksum\n"),
    }
}

/// How an encoding is described.
pub open spec fn encoding_text(e: Encoding) -> Seq<char> {
    match e {
        Encoding::Plain => "0 - No encoding"@,
        Encoding::MeatPackAlgorithm => "1 - MeatPack algorithm"@,
        Encoding::MeatPackModifiedAlgorithm => "2 - MeatPack algorithm modified to keep comment lines"@,
    }
}

fn append_encoding(f: &mut String, e: Encoding)
    ensures
        final(f)@ == old(f)@ + encoding_text(e),
{
    match e {
        Encoding::Plain => f.append("0 - No encoding"),
        Encoding::MeatPackAlgorithm => f.append("1 - MeatPack algorithm"),
        Encoding::MeatPackModifiedAlgorithm => f.append("2 - MeatPack algorithm modified to keep comment lines"),
    }
}

/// A payload as text: decompressed and decoded, or a note that it could not be.
pub open spec fn payload_text(data: Seq<u8>, e: Encoding, h: BlockHeader) -> Seq<char> {
    match spec_data_block(data, e, h) {
        Ok((_, t)) => utf8_lossy_of(t),
        Err(_) => "failed to decompress"@,
    }
}

fn payload_string(data: &[u8], e: Encoding, h: &BlockHeader) -> (r: String)
    ensures
        r@ == payload_text(data@, e, *h),
{
    match decompress_data_block(data, &e, h) {
        Ok((_, bytes)) => utf8_lossy(bytes.as_slice()),
        Err(_) => String::from_str("failed to decompress"),
    }
}

/// The body of a block's section: parameters, payload, checksum.
pub open spec fn block_body(e: Encoding, shown: Seq<char>, c: Option<u32>) -> Seq<char> {
    "### Params\n\n"@ + encoding_text(e) + "\n<details>\n<summary>DataBlock</summary>\n<br>\n"@ + shown
        + "\n</details>\n\n"@ + checksum_text(c)
}

fn append_block_body(f: &mut String, e: Encoding, shown: &str, c: Option<u32>)
    ensures
        final(f)@ == old(f)@ + block_body(e, shown@, c),
{
    f.append("### Params\n\n");
    append_encoding(f, e);
    f.append("\n<details>\n<summary>DataBlock</summary>\n<br>\n");
    f.append(shown);
    f.append("\n</details>\n\n");
    append_checksum(f, c);
    assert(final(f)@ =~= old(f)@ + block_body(e, shown@, c));
}

/// A block's section under a second-level title.
pub open spec fn block_section(title: Seq<char>, e: Encoding, shown: Seq<char>, c: Option<u32>) -> Seq<char> {
    "\n## "@ + title + "\n\n"@ + block_body(e, shown, c)
}

fn append_block_section(f: &mut String, title: &str, e: Encoding, shown: &str, c: Option<u32>)
    ensures
        final(f)@ == old(f)@ + block_section(title@, e, shown@, c),
{
    f.append("\n## ");
    f.append(title);
    f.append("\n\n");
    append_block_body(f, e, shown, c);
    assert(final(f)@ =~= old(f)@ + block_section(title@, e, shown@, c));
}

/// The file metadata block's section: its payload quoted.
#[verifier::opaque]
pub open spec fn file_metadata_md(b: FileMetadataBlock) -> Seq<char> {
    block_section("FileMetadataBlock"@, b.param.encoding, debug_quoted_of(payload_text(b.data@, b.param.encoding, b.header)), b.checksum)
}

/// The printer metadata block's section.
#[verifier::opaque]
pub open spec fn printer_metadata_md(b: PrinterMetadataBlock) -> Seq<char> {
    block_section("PrinterMetadataBlock"@, b.param.encoding, payload_text(b.data@, b.param.encoding, b.header), b.checksum)
}

/// The print metadata block's section.
#[verifier::opaque]
pub open spec fn print_metadata_md(b: PrintMetadataBlock) -> Seq<char> {
    block_section("PrintMetadataBlock"@, b.param.encoding, payload_text(b.data@, b.param.encoding, b.header), b.checksum)
}

/// The slicer block's section.
#[verifier::opaque]
pub open spec fn slicer_md(b: SlicerBlock) -> Seq<char> {
    block_section("SlicerBlock"@, b.param.encoding, payload_text(b.data@, b.param.encoding, b.header), b.checksum)
}

/// A G-code block's body: its payload quoted.
#[verifier::opaque]
pub open spec fn gcode_body(b: GCodeBlock) -> Seq<char> {
    block_body(b.param.encoding, debug_quoted_of(payload_text(b.data@, b.param.encoding, b.header)), b.checksum)
}

impl<'a> FileMetadataBlock<'a> {
    /// Appends this block's section, its payload quoted.
    pub fn markdown(&self, f: &mut String)
        ensures
            final(f)@ == old(f)@ + file_metadata_md(*self),
    {
        reveal(file_metadata_md);
        let text = payload_string(self.data, self.param.encoding, &self.header);
        let shown = debug_quoted(text.as_str());
        append_block_section(f, "FileMetadataBlock", self.param.encoding, shown.as_str(), self.checksum);
    }
}

impl<'a> PrinterMetadataBlock<'a> {
    /// Appends this block's section.
    pub fn markdown(&self, f: &mut String)
        ensures
            final(f)@ == old(f)@ + printer_metadata_md(*self),
    {
        reveal(printer_metadata_md);
        let text = payload_string(self.data, self.param.encoding, &self.header);
        append_block_section(f, "PrinterMetadataBlock", self.param.encoding, text.as_str(), self.checksum);
    }
}

impl<'a> PrintMetadataBlock<'a> {
    /// Appends this block's section.
    pub fn markdown(&self, f: &mut String)
        ensures
            final(f)@ == old(f)@ + print_metadata_md(*self),
    {
        reveal(print_metadata_md);
        let text = payload_string(self.data, self.param.encoding, &self.header);
        append_block_section(f, "PrintMetadataBlock", self.param.encoding, text.as_str(), self.checksum);
    }
}

impl<'a> SlicerBlock<'a> {
    /// Appends this block's section.
    pub fn markdown(&self, f: &mut String)
        ensures
            final(f)@ == old(f)@ + slicer_md(*self),
    {
        reveal(slicer_md);
        let text = payload_string(self.data, self.param.encoding, &self.header);
        append_block_section(f, "SlicerBlock", self.param.encoding, text.as_str(), self.checksum);
    }
}

impl<'a> GCodeBlock<'a> {
    /// Appends this block's parameters, payload (quoted) and checksum,
    /// without a title.
    pub fn headless_markdown(&self, f: &mut String)
        ensures
            final(f)@ == old(f)@ + gcode_body(*self),
    {
        reveal(gcode_body);
        let text = payload_string(self.data, self.param.encoding, &self.header);
        let shown = debug_quoted(text.as_str());
        append_block_body(f, self.param.encoding, shown.as_str(), self.checksum);
    }
}

/// How an image format is named.
pub open spec fn format_text(fmt: Format) -> Seq<char> {
    match fmt {
        Format::Png => "png"@,
        Format::Jpg => "jpg"@,
        Format::Qoi => "qoi"@,
    }
}

/// A thumbnail's parameters and checksum; the image itself is left out.
#[verifier::opaque]
pub open spec fn thumbnail_body(b: ThumbnailBlock) -> Seq<char> {
    "### Params\n\nformat "@ + format_text(b.param.format) + "\nwidth "@ + number_text(b.param.width as nat, false)
        + "\nheight "@ + number_text(b.param.height as nat, false) + "\n\nDataBlock omitted\n\n"@
        + checksum_text(b.checksum)
}

impl<'a> ThumbnailBlock<'a> {
    /// Appends this thumbnail's parameters and checksum, without a title.
    pub fn headless_markdown(&self, f: &mut String)
        ensures
            final(f)@ == old(f)@ + thumbnail_body(*self),
    {
        reveal(thumbnail_body);
        f.append("### Params\n\nformat ");
        match self.param.format {
            Format::Png => f.append("png"),
            Format::Jpg => f.append("jpg"),
            Format::Qoi => f.append("qoi"),
        }
        f.append("\nwidth ");
        append_number(f, self.param.width as u32, false);
        f.append("\nheight ");
        append_number(f, self.param.height as u32, false);
        f.append("\n\nDataBlock omitted\n\n");
        append_checksum(f, self.checksum);
        assert(final(f)@ =~= old(f)@ + thumbnail_body(*self));
    }
}

/// The file header's section.
#[verifier::opaque]
pub open spec fn file_header_text(h: FileHeader) -> Seq<char> {
    "## File Header\n\nVersion number "@ + number_text(h.version as nat, false) + "\n"@ + match h.checksum_type {
        ChecksumType::NoChecksum => "0 - Blocks have no checksum\n"@,
        ChecksumType::Crc32 => "1 - A CRC32 checksum is appended to all block\n"@,
    }
}

/// The thumbnails' sections, numbered from 0.
pub open spec fn thumbnails_md(ts: Seq<ThumbnailBlock>) -> Seq<char>
    decreases ts.len(),
{
    if ts.len() == 0 {
        seq![]
    } else {
        thumbnails_md(ts.drop_last()) + "\n### ThumbnailBlock "@ + number_text((ts.len() - 1) as nat, false)
            + "\n\n"@ + thumbnail_body(ts.last())
    }
}

/// The G-code blocks' sections, numbered from 0.
pub open spec fn gcode_md(gs: Seq<GCodeBlock>) -> Seq<char>
    decreases gs.len(),
{
    if gs.len() == 0 {
        seq![]
    } else {
        gcode_md(gs.drop_last()) + "\n### GCodeBlock "@ + number_text((gs.len() - 1) as nat, false)
            + "\n\n"@ + gcode_body(gs.last())
    }
}

/// The report of a whole file: the header, then every block in file order.
pub open spec fn bgcode_md(b: Bgcode) -> Seq<char> {
    file_header_text(b.fh) + match b.file_metadata {
        Some(fm) => file_metadata_md(fm),
        None => "No optional file metadata block\n"@,
    } + printer_metadata_md(b.printer_metadata) + "\n## ThumbnailBlocks\n"@ + thumbnails_md(b.thumbnails@)
        + print_metadata_md(b.print_metadata) + slicer_md(b.slicer)
        + (if b.gcode@.len() > 0 { "\n## GCodeBlocks\n"@ } else { Seq::<char>::empty() }) + gcode_md(b.gcode@)
}

impl FileHeader {
    /// Appends the header's section.
    pub fn report(&self, f: &mut String)
        ensures
            final(f)@ == old(f)@ + file_header_text(*self),
    {
        reveal(file_header_text);
        f.append("## File Header\n\nVersion number ");
        append_number(f, self.version, false);
        f.append("\n");
        match self.checksum_type {
            ChecksumType::NoChecksum => f.append("0 - Blocks have no checksum\n"),
            ChecksumType::Crc32 => f.append("1 - A CRC32 checksum is appended to all block\n"),
        }
        assert(final(f)@ =~= old(f)@ + file_header_text(*self));
    }
}

impl<'a> Bgcode<'a> {
    /// Appends the report of the whole file.
    #[verifier::rlimit(50)]
    pub fn report(&self, f: &mut String)
        ensures
            final(f)@ == old(f)@ + bgcode_md(*self),
    {
        let ghost start = f@;
        self.fh.report(f);
        match &self.file_metadata {
            Some(fm) => fm.markdown(f),
            None => f.append("No optional file metadata block\n"),
        }
        self.printer_metadata.markdown(f);
        f.append("\n## ThumbnailBlocks\n");
        let ghost before_thumbs = f@;
        let mut i: usize = 0;
        while i < self.thumbnails.len()
            invariant
                0 <= i <= self.thumbnails@.len(),
                f@ == before_thumbs + thumbnails_md(self.thumbnails@.take(i as int)),
            decreases self.thumbnails@.len() - i,
        {
            f.append("\n### ThumbnailBlock ");
            append_number_usize(f, i);
            f.append("\n\n");
            self.thumbnails[i].headless_markdown(f);
            proof {
                let t = self.thumbnails@.take(i + 1);
                assert(t.drop_last() =~= self.thumbnails@.take(i as int));
                assert(f@ =~= before_thumbs + thumbnails_md(t));
            }
            i = i + 1;
        }
        assert(self.thumbnails@.take(self.thumbnails@.len() as int) =~= self.thumbnails@);
        self.print_metadata.markdown(f);
        self.slicer.markdown(f);
        if self.gcode.len() > 0 {
            f.append("\n## GCodeBlocks\n");
        }
        let ghost before_gcode = f@;
        let mut j: usize = 0;
        while j < self.gcode.len()
            invariant
                0 <= j <= self.gcode@.len(),
                f@ == before_gcode + gcode_md(self.gcode@.take(j as int)),
            decreases self.gcode@.len() - j,
        {
            f.append("\n### GCodeBlock ");
            append_number_usize(f, j);
            f.append("\n\n");
            self.gcode[j].headless_markdown(f);
            proof {
                let t = self.gcode@.take(j + 1);
                assert(t.drop_last() =~= self.gcode@.take(j as int));
                assert(f@ =~= before_gcode + gcode_md(t));
            }
            j = j + 1;
        }
        assert(self.gcode@.take(self.gcode@.len() as int) =~= self.gcode@);
        assert(f@ =~= start + bgcode_md(*self));
    }
}

/// A markdown report.
pub trait Markdown {
    /// Appends the report of `self` to `f`.
    fn markdown(&self, f: &mut String);
}

impl Markdown for FileHeader {
    fn markdown(&self, f: &mut String) {
        self.report(f);
    }
}

impl<'a> Markdown for Bgcode<'a> {
    fn markdown(&self, f: &mut String) {
        self.report(f);
    }
}

/// Appends `n` in decimal.
fn append_number_usize(f: &mut String, n: usize)
    ensures
        final(f)@ == old(f)@ + number_text(n as nat, false),
    decreases n,
{
    if n >= 10 {
        append_number_usize(f, n / 10);
        append_digit(f, (n % 10) as u32);
        assert(final(f)@ =~= old(f)@ + number_text(n as nat, false));
    } else {
        append_digit(f, n as u32);
    }
}

} // verus!

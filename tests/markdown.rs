use gcode_nom::bgcode::bgcode_parser;
use gcode_nom::markdown::Markdown;

fn block(id: u16, params: &[u8], payload: &[u8]) -> Vec<u8> {
    let mut v = Vec::new();
    v.extend_from_slice(&id.to_le_bytes());
    v.extend_from_slice(&0u16.to_le_bytes());
    v.extend_from_slice(&(payload.len() as u32).to_le_bytes());
    v.extend_from_slice(params);
    v.extend_from_slice(payload);
    let c = crc32fast::hash(&v);
    v.extend_from_slice(&c.to_le_bytes());
    v
}

fn file() -> Vec<u8> {
    let mut v = vec![0x47, 0x43, 0x44, 0x45, 1, 0, 0, 0, 1, 0];
    v.extend(block(0, &[0, 0], b"Producer=test"));
    v.extend(block(3, &[0, 0], b"printer_model=MK4"));
    v.extend(block(5, &[1, 0, 220, 0, 124, 0], b"jpeg"));
    v.extend(block(4, &[0, 0], b"k=v"));
    v.extend(block(2, &[0, 0], b"layer_height=0.2"));
    v.extend(block(1, &[0, 0], b"G1 X1\n"));
    v
}

#[test]
fn every_block_has_a_section() {
    let bytes = file();
    let (_, b) = bgcode_parser(&bytes).unwrap();
    let mut out = String::new();
    b.markdown(&mut out);
    assert!(out.starts_with("## File Header\n\nVersion number 1\n1 - A CRC32 checksum is appended to all block\n"));
    for title in ["## FileMetadataBlock", "## PrinterMetadataBlock", "## ThumbnailBlocks", "### ThumbnailBlock 0",
        "## PrintMetadataBlock", "## SlicerBlock", "## GCodeBlocks", "### GCodeBlock 0"] {
        assert!(out.contains(title), "{title}");
    }
    assert!(out.contains("\"Producer=test\""));
    assert!(out.contains("printer_model=MK4"));
    assert!(out.contains("\"G1 X1\\n\""));
    assert!(out.contains("format jpg\nwidth 220\nheight 124\n"));
}

#[test]
fn block_section_is_exact() {
    let bytes = file();
    let (_, b) = bgcode_parser(&bytes).unwrap();
    let mut out = String::new();
    b.slicer.markdown(&mut out);
    let c = b.slicer.checksum.unwrap();
    let expected = format!(
        "\n## SlicerBlock\n\n### Params\n\n0 - No encoding\n<details>\n<summary>DataBlock</summary>\n<br>\nlayer_height=0.2\n</details>\n\nChecksum Ox{c:X}\n"
    );
    assert_eq!(out, expected);
    let mut t = String::new();
    b.thumbnails[0].headless_markdown(&mut t);
    let c = b.thumbnails[0].checksum.unwrap();
    assert_eq!(t, format!("### Params\n\nformat jpg\nwidth 220\nheight 124\n\nDataBlock omitted\n\nChecksum Ox{c:X}\n"));
}

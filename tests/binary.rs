use gcode_nom::bgcode::bgcode_parser;
use gcode_nom::bgcode::bgcode_parser_fast;
use gcode_nom::bgcode::extract_gcode;
use gcode_nom::block::BlockError;
use gcode_nom::block::BlockHeader;
use gcode_nom::block::CompressionType;
use gcode_nom::data_blocks::gcode_parser;
use gcode_nom::data_blocks::gcode_parser_with_checksum;
use gcode_nom::data_blocks::printer_metadata_parser_with_checksum;
use gcode_nom::default_params::Encoding;
use gcode_nom::file_header::file_header_parser;
use gcode_nom::file_header::ChecksumType;
use gcode_nom::file_header::FileHeader;
use gcode_nom::inflate::decompress_data_block;
use gcode_nom::inflate::DecompressError;
use gcode_nom::thumbnail_block::thumbnail_parser_with_checksum;
use gcode_nom::thumbnail_block::Format;

fn header(checksum: u16) -> Vec<u8> {
    let mut v = vec![0x47, 0x43, 0x44, 0x45, 1, 0, 0, 0];
    v.extend_from_slice(&checksum.to_le_bytes());
    v
}

/// A stored block: id, compression 0, size, params, payload, optional CRC.
fn raw_block(id: u16, params: &[u8], payload: &[u8], crc: bool) -> Vec<u8> {
    let mut v = Vec::new();
    v.extend_from_slice(&id.to_le_bytes());
    v.extend_from_slice(&0u16.to_le_bytes());
    v.extend_from_slice(&(payload.len() as u32).to_le_bytes());
    v.extend_from_slice(params);
    v.extend_from_slice(payload);
    if crc {
        let c = crc32fast::hash(&v);
        v.extend_from_slice(&c.to_le_bytes());
    }
    v
}

fn compressed_block(id: u16, compression: u16, uncompressed: u32, params: &[u8], payload: &[u8]) -> Vec<u8> {
    let mut v = Vec::new();
    v.extend_from_slice(&id.to_le_bytes());
    v.extend_from_slice(&compression.to_le_bytes());
    v.extend_from_slice(&uncompressed.to_le_bytes());
    v.extend_from_slice(&(payload.len() as u32).to_le_bytes());
    v.extend_from_slice(params);
    v.extend_from_slice(payload);
    let c = crc32fast::hash(&v);
    v.extend_from_slice(&c.to_le_bytes());
    v
}

fn minimal_file(crc: bool, with_file_metadata: bool, thumbnails: usize, gcode_blocks: usize) -> Vec<u8> {
    let mut v = header(if crc { 1 } else { 0 });
    if with_file_metadata {
        v.extend(raw_block(0, &[0, 0], b"Producer=test\n", crc));
    }
    v.extend(raw_block(3, &[0, 0], b"printer_model=MK4\n", crc));
    for i in 0..thumbnails {
        v.extend(raw_block(5, &[0, 0, 16, 0, 16, 0], &[0x89, b'P', b'N', b'G', i as u8], crc));
    }
    v.extend(raw_block(4, &[0, 0], b"filament used [mm]=1.0\n", crc));
    v.extend(raw_block(2, &[0, 0], b"layer_height=0.2\n", crc));
    for i in 0..gcode_blocks {
        let text = format!("G1 X{i} Y0 E1\n");
        v.extend(raw_block(1, &[0, 0], text.as_bytes(), crc));
    }
    v
}

#[test]
fn file_header_round_trip() {
    let bytes = [0x47, 0x43, 0x44, 0x45, 0x01, 0x00, 0x00, 0x00, 0x01, 0x00];
    let (rest, fh) = file_header_parser(&bytes).unwrap();
    assert!(rest.is_empty());
    assert_eq!(fh, FileHeader { version: 1, checksum_type: ChecksumType::Crc32 });
    let bytes = [0x47, 0x43, 0x44, 0x45, 0x01, 0x00, 0x00, 0x00, 0x00, 0x00, 0xaa];
    let (rest, fh) = file_header_parser(&bytes).unwrap();
    assert_eq!(rest, &[0xaa]);
    assert_eq!(fh.checksum_type, ChecksumType::NoChecksum);
}

#[test]
fn file_header_truncated_is_short_input() {
    let bytes = [0x47, 0x43, 0x44, 0x45, 0x01, 0x00, 0x00, 0x00, 0x01, 0x00];
    for n in 0..10 {
        assert_eq!(file_header_parser(&bytes[..n]), Err(BlockError::ShortInput), "prefix {n}");
    }
}

#[test]
fn file_header_errors() {
    assert_eq!(file_header_parser(&[0x47, 0x43, 0x44, 0x46, 1, 0, 0, 0, 1, 0]), Err(BlockError::BadMagic));
    assert_eq!(file_header_parser(&[0x47, 0x43, 0x44, 0x45, 2, 0, 0, 0, 1, 0]), Err(BlockError::BadVersion));
    assert_eq!(file_header_parser(&[0x47, 0x43, 0x44, 0x45, 1, 0, 0, 0, 2, 0]), Err(BlockError::BadChecksumType));
}

#[test]
fn empty_input_is_short() {
    assert_eq!(bgcode_parser(&[]).err(), Some(BlockError::ShortInput));
}

#[test]
fn minimal_file_parses_in_order() {
    let v = minimal_file(true, true, 2, 3);
    let (rest, b) = bgcode_parser(&v).unwrap();
    assert!(rest.is_empty());
    assert_eq!(b.fh.checksum_type, ChecksumType::Crc32);
    assert!(b.file_metadata.is_some());
    assert_eq!(b.file_metadata.as_ref().unwrap().data, b"Producer=test\n");
    assert_eq!(b.printer_metadata.data, b"printer_model=MK4\n");
    assert_eq!(b.thumbnails.len(), 2);
    assert_eq!(b.thumbnails[1].param.format, Format::Png);
    assert_eq!(b.thumbnails[1].param.width, 16);
    assert_eq!(b.thumbnails[1].data, &[0x89, b'P', b'N', b'G', 1]);
    assert_eq!(b.print_metadata.data, b"filament used [mm]=1.0\n");
    assert_eq!(b.slicer.data, b"layer_height=0.2\n");
    assert_eq!(b.gcode.len(), 3);
    assert_eq!(b.gcode[2].data, b"G1 X2 Y0 E1\n");
    assert!(b.gcode[0].checksum.is_some());
}

#[test]
fn file_without_checksums() {
    let v = minimal_file(false, false, 0, 1);
    let (_, b) = bgcode_parser(&v).unwrap();
    assert!(b.file_metadata.is_none());
    assert!(b.thumbnails.is_empty());
    assert_eq!(b.gcode.len(), 1);
    assert_eq!(b.gcode[0].checksum, None);
}

#[test]
fn flipped_byte_is_checksum_mismatch() {
    let v = minimal_file(true, false, 0, 1);
    // The printer metadata payload starts after the header (10) and its
    // block header (8) and parameters (2).
    let mut w = v.clone();
    w[25] ^= 0x01;
    match bgcode_parser(&w) {
        Err(BlockError::ChecksumMismatch { .. }) => {}
        other => panic!("unexpected {other:?}"),
    }
    // The fast parser reads the CRC without checking it.
    assert!(bgcode_parser_fast(&w).is_ok());
    assert_eq!(extract_gcode(&w).unwrap().1.len(), 1);
}

#[test]
fn trailing_bytes_are_an_error() {
    let mut v = minimal_file(true, false, 0, 1);
    v.push(0);
    assert_eq!(bgcode_parser(&v).err(), Some(BlockError::ShortInput));
    let mut v = minimal_file(true, false, 0, 1);
    v.extend_from_slice(&[7, 0]);
    assert_eq!(bgcode_parser(&v).err(), Some(BlockError::BadBlockType));
}

#[test]
fn missing_gcode_block_is_an_error() {
    let v = minimal_file(true, false, 0, 0);
    assert_eq!(bgcode_parser(&v).err(), Some(BlockError::ShortInput));
}

#[test]
fn blocks_out_of_order_are_refused() {
    let mut v = header(1);
    v.extend(raw_block(4, &[0, 0], b"x", true));
    assert_eq!(bgcode_parser(&v).err(), Some(BlockError::BadBlockType));
}

#[test]
fn bad_compression_and_encoding() {
    let mut b = raw_block(3, &[0, 0], b"x", true);
    b[2] = 9;
    assert_eq!(printer_metadata_parser_with_checksum(&b, ChecksumType::Crc32).err(), Some(BlockError::BadCompression));
    let b = raw_block(3, &[1, 0], b"x", true);
    assert_eq!(printer_metadata_parser_with_checksum(&b, ChecksumType::Crc32).err(), Some(BlockError::BadEncoding));
    let b = raw_block(1, &[3, 0], b"x", true);
    assert_eq!(gcode_parser(&b, ChecksumType::Crc32).err(), Some(BlockError::BadEncoding));
    let b = raw_block(5, &[3, 0, 1, 0, 1, 0], b"x", true);
    assert_eq!(thumbnail_parser_with_checksum(&b, ChecksumType::Crc32).err(), Some(BlockError::BadEncoding));
}

#[test]
fn gcode_block_parses_alone() {
    let b = raw_block(1, &[2, 0], b"G1 X1\n", true);
    let (rest, g) = gcode_parser_with_checksum(&b, ChecksumType::Crc32).unwrap();
    assert!(rest.is_empty());
    assert_eq!(g.param.encoding, Encoding::MeatPackModifiedAlgorithm);
    assert_eq!(g.header.size_in_bytes(), 8);
    assert_eq!(g.header.payload_size_in_bytes(), 6);
    assert_eq!(g.checksum, Some(crc32fast::hash(&b[..b.len() - 4])));
    let short = &b[..b.len() - 1];
    assert_eq!(gcode_parser(short, ChecksumType::Crc32).err(), Some(BlockError::ShortInput));
}

#[test]
fn compressed_header_sizes() {
    let h = BlockHeader { compression_type: CompressionType::Deflate, uncompressed_size: 100, compressed_size: Some(40) };
    assert_eq!(h.size_in_bytes(), 12);
    assert_eq!(h.payload_size_in_bytes(), 40);
}

#[test]
fn stored_payload_is_returned_unchanged() {
    let h = BlockHeader { compression_type: CompressionType::Uncompressed, uncompressed_size: 3, compressed_size: None };
    let data = [1u8, 2, 3, 4];
    let (rest, out) = decompress_data_block(&data, &Encoding::Plain, &h).unwrap();
    assert_eq!(out, vec![1, 2, 3]);
    assert_eq!(rest, &[4]);
    assert_eq!(decompress_data_block(&data[..2], &Encoding::Plain, &h).err(), Some(DecompressError::Truncated));
}

fn adler32(data: &[u8]) -> u32 {
    let (mut a, mut b) = (1u32, 0u32);
    for &x in data {
        a = (a + x as u32) % 65521;
        b = (b + a) % 65521;
    }
    (b << 16) | a
}

#[test]
fn deflate_payload_is_inflated() {
    let text = b"G1 X1 Y2\n";
    let mut z = vec![0x78, 0x01, 0x01];
    z.extend_from_slice(&(text.len() as u16).to_le_bytes());
    z.extend_from_slice(&(!(text.len() as u16)).to_le_bytes());
    z.extend_from_slice(text);
    z.extend_from_slice(&adler32(text).to_be_bytes());
    let h = BlockHeader { compression_type: CompressionType::Deflate, uncompressed_size: text.len() as u32, compressed_size: Some(z.len() as u32) };
    let (_, out) = decompress_data_block(&z, &Encoding::Plain, &h).unwrap();
    assert_eq!(out, text.to_vec());
    let bad = vec![0u8; z.len()];
    assert_eq!(decompress_data_block(&bad, &Encoding::Plain, &h).err(), Some(DecompressError::Deflate));
}

#[test]
fn heatshrink_payload_is_decoded() {
    let text = b"G1 X1 Y2\nG1 X1 Y2\nG1 X1 Y2\n";
    let cfg = heatshrink::Config::new(12, 4).unwrap();
    let mut buf = [0u8; 256];
    let encoded = heatshrink::encode(text, &mut buf, &cfg).unwrap().to_vec();
    let h = BlockHeader {
        compression_type: CompressionType::HeatShrink12,
        uncompressed_size: text.len() as u32,
        compressed_size: Some(encoded.len() as u32),
    };
    let (_, out) = decompress_data_block(&encoded, &Encoding::Plain, &h).unwrap();
    assert_eq!(out, text.to_vec());
    let h11 = BlockHeader { compression_type: CompressionType::HeatShrink11, ..h };
    assert_eq!(decompress_data_block(&encoded, &Encoding::Plain, &h11).err(), Some(DecompressError::HeatShrink11));
    assert_eq!(DecompressError::HeatShrink11.block_error(), BlockError::UnimplementedCompression);
}

#[test]
fn meatpack_encodings() {
    let h = BlockHeader { compression_type: CompressionType::Uncompressed, uncompressed_size: 6, compressed_size: None };
    let data = b"G1 X1\n";
    assert_eq!(
        decompress_data_block(data, &Encoding::MeatPackAlgorithm, &h).err(),
        Some(DecompressError::UnimplementedEncoding)
    );
    // Without the signal bytes that enable packing, the unpacker copies its input.
    let (_, out) = decompress_data_block(data, &Encoding::MeatPackModifiedAlgorithm, &h).unwrap();
    assert_eq!(out, data.to_vec());
}

#[test]
fn meatpack_payload_is_unpacked() {
    let text = b"G1 X10.5 Y20.25\nG1 X11 Y21\n";
    let mut reader: &[u8] = text;
    let mut packed: Vec<u8> = Vec::new();
    meatpack::Packer::new(false, false).pack(&mut reader, &mut packed).unwrap();
    assert_ne!(packed, text.to_vec());
    let h = BlockHeader { compression_type: CompressionType::Uncompressed, uncompressed_size: packed.len() as u32, compressed_size: None };
    let (_, out) = decompress_data_block(&packed, &Encoding::MeatPackModifiedAlgorithm, &h).unwrap();
    assert_eq!(String::from_utf8_lossy(&out), String::from_utf8_lossy(text));
}

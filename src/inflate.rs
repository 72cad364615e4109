//! Turning a block's payload back into its bytes: decompression, then, for
//! G-code, decoding.

use vstd::prelude::*;

use crate::block::BlockError;
use crate::block::BlockHeader;
use crate::block::CompressionType;
use crate::default_params::Encoding;

verus! {

/// What zlib-framed DEFLATE data inflates to, or `None` where it is not valid.
pub uninterp spec fn zlib_inflate_of(b: Seq<u8>) -> Option<Seq<u8>>;

/// What Heatshrink data (window 12, lookahead 4) decodes to in an output
/// buffer of `capacity` bytes, or `None` where it does not fit.
pub uninterp spec fn heatshrink12_decode_of(b: Seq<u8>, capacity: int) -> Option<Seq<u8>>;

/// What a fresh MeatPack unpacker writes out for the bytes, or `None` where
/// it reports an error.
pub uninterp spec fn meatpack_unpack_of(b: Seq<u8>) -> Option<Seq<u8>>;

/// Relies on `inflate::inflate_bytes_zlib`: the inflated bytes, or an error,
/// as a function of the input alone.
#[verifier::external_body]
fn inflate_zlib(b: &[u8]) -> (r: Option<Vec<u8>>)
    ensures
        zlib_inflate_of(b@) == match r {
            Some(v) => Some(v@),
            None => None::<Seq<u8>>,
        },
{
    match inflate::inflate_bytes_zlib(b) {
        Ok(v) => Some(v),
        Err(_) => None,
    }
}

/// Relies on `heatshrink::decode` with `Config::new(12, 4)`: the decoded
/// bytes written into a zeroed buffer of `capacity` bytes, or an error when
/// they do not fit; a function of the input and the capacity alone.
#[verifier::external_body]
fn heatshrink12_decode(b: &[u8], capacity: usize) -> (r: Option<Vec<u8>>)
    ensures
        heatshrink12_decode_of(b@, capacity as int) == match r {
            Some(v) => Some(v@),
            None => None::<Seq<u8>>,
        },
{
    let mut out = vec![0u8; capacity];
    match heatshrink::Config::new(12, 4) {
        Ok(cfg) => match heatshrink::decode(b, &mut out, &cfg) {
            Ok(decoded) => Some(decoded.to_vec()),
            Err(_) => None,
        },
        Err(_) => None,
    }
}

/// Relies on `meatpack::Unpacker::unpack` from `Unpacker::default()`: the
/// unpacked G-code, or an error, as a function of the input alone.
#[verifier::external_body]
fn meatpack_unpack(b: &[u8]) -> (r: Option<Vec<u8>>)
    ensures
        meatpack_unpack_of(b@) == match r {
            Some(v) => Some(v@),
            None => None::<Seq<u8>>,
        },
{
    let mut reader: &[u8] = b;
    let mut out: Vec<u8> = Vec::new();
    match meatpack::Unpacker::default().unpack(&mut reader, &mut out) {
        Ok(_) => Some(out),
        Err(_) => None,
    }
}

/// Why a payload could not be turned back into its bytes.
#[derive(Clone, Copy, Debug, PartialEq, Eq, Structural)]
pub enum DecompressError {
    /// Fewer bytes than the header announces.
    Truncated,
    /// The DEFLATE data is not valid.
    Deflate,
    /// Heatshrink with window 11 is not supported.
    HeatShrink11,
    /// The Heatshrink data does not decode into the announced size.
    HeatShrink12,
    /// The MeatPack unpacker reported an error.
    MeatPackAlgorithm,
    /// MeatPack without comment preservation is not supported.
    UnimplementedEncoding,
}

impl DecompressError {
    /// The container-level error that this decoding error stands for.
    pub open spec fn spec_block_error(self) -> BlockError {
        match self {
            DecompressError::Truncated => BlockError::ShortInput,
            DecompressError::HeatShrink11 => BlockError::UnimplementedCompression,
            DecompressError::UnimplementedEncoding => BlockError::UnimplementedEncoding,
            _ => BlockError::DecompressionFailure,
        }
    }

    pub fn block_error(self) -> (r: BlockError)
        ensures
            r == self.spec_block_error(),
    {
        match self {
            DecompressError::Truncated => BlockError::ShortInput,
            DecompressError::HeatShrink11 => BlockError::UnimplementedCompression,
            DecompressError::UnimplementedEncoding => BlockError::UnimplementedEncoding,
            _ => BlockError::DecompressionFailure,
        }
    }
}

/// The payload bytes decompressed, or why they cannot be.
pub open spec fn spec_decompress(raw: Seq<u8>, header: BlockHeader) -> Result<Seq<u8>, DecompressError> {
    match header.compression_type {
        CompressionType::Uncompressed => Ok(raw),
        CompressionType::Deflate => match zlib_inflate_of(raw) {
            Some(d) => Ok(d),
            None => Err(DecompressError::Deflate),
        },
        CompressionType::HeatShrink11 => Err(DecompressError::HeatShrink11),
        CompressionType::HeatShrink12 => if header.uncompressed_size + 1 > usize::MAX {
            Err(DecompressError::HeatShrink12)
        } else {
            match heatshrink12_decode_of(raw, header.uncompressed_size + 1) {
                Some(d) => Ok(d),
                None => Err(DecompressError::HeatShrink12),
            }
        },
    }
}

/// Decompressed bytes decoded according to the encoding.
pub open spec fn spec_decode(d: Seq<u8>, encoding: Encoding) -> Result<Seq<u8>, DecompressError> {
    match encoding {
        Encoding::Plain => Ok(d),
        Encoding::MeatPackAlgorithm => Err(DecompressError::UnimplementedEncoding),
        Encoding::MeatPackModifiedAlgorithm => match meatpack_unpack_of(d) {
            Some(t) => Ok(t),
            None => Err(DecompressError::MeatPackAlgorithm),
        },
    }
}

/// The payload at the start of `data` (as long as the header says), turned
/// back into its bytes, with how many input bytes it took.
pub open spec fn spec_data_block(data: Seq<u8>, encoding: Encoding, header: BlockHeader) -> Result<(int, Seq<u8>), DecompressError> {
    let size = header.spec_payload_size();
    if data.len() < size {
        Err(DecompressError::Truncated)
    } else {
        match spec_decompress(data.take(size), header) {
            Err(e) => Err(e),
            Ok(d) => match spec_decode(d, encoding) {
                Err(e) => Err(e),
                Ok(t) => Ok((size, t)),
            },
        }
    }
}

/// Decompresses the payload at the start of `data` with the header's
/// algorithm, then decodes it according to `encoding`. Returns what follows
/// the payload and the bytes.
pub fn decompress_data_block<'a>(data: &'a [u8], encoding: &Encoding, header: &BlockHeader) -> (r: Result<(&'a [u8], Vec<u8>), DecompressError>)
    ensures
        match spec_data_block(data@, *encoding, *header) {
            Ok((size, t)) => r matches Ok((rest, v)) && v@ == t && rest@ == data@.subrange(size, data@.len() as int),
            Err(e) => r matches Err(e2) && e2 == e,
        },
{
    let size = header.payload_size_in_bytes();
    if data.len() < size {
        return Err(DecompressError::Truncated);
    }
    let raw = &data[0..size];
    let rest = &data[size..data.len()];
    let decompressed: Vec<u8> = match header.compression_type {
        CompressionType::Uncompressed => vstd::slice::slice_to_vec(raw),
        CompressionType::Deflate => match inflate_zlib(raw) {
            Some(d) => d,
            None => return Err(DecompressError::Deflate),
        },
        CompressionType::HeatShrink11 => return Err(DecompressError::HeatShrink11),
        CompressionType::HeatShrink12 => {
            // The decoder needs one byte of room past the announced size.
            let capacity = match (header.uncompressed_size as usize).checked_add(1) {
                Some(c) => c,
                None => return Err(DecompressError::HeatShrink12),
            };
            match heatshrink12_decode(raw, capacity) {
                Some(d) => d,
                None => return Err(DecompressError::HeatShrink12),
            }
        },
    };
    assert(raw@ == data@.take(size as int));
    match encoding {
        Encoding::Plain => Ok((rest, decompressed)),
        Encoding::MeatPackAlgorithm => Err(DecompressError::UnimplementedEncoding),
        Encoding::MeatPackModifiedAlgorithm => match meatpack_unpack(decompressed.as_slice()) {
            Some(t) => Ok((rest, t)),
            None => Err(DecompressError::MeatPackAlgorithm),
        },
    }
}

/// A payload stored without compression or encoding comes back as the very
/// bytes it occupies in the input.
pub proof fn lemma_stored_payload_unchanged(data: Seq<u8>, header: BlockHeader)
    requires
        header.compression_type == CompressionType::Uncompressed,
        data.len() >= header.spec_payload_size(),
    ensures
        spec_data_block(data, Encoding::Plain, header)
            == Ok::<(int, Seq<u8>), DecompressError>((header.spec_payload_size(), data.take(header.spec_payload_size()))),
{
}

} // verus!

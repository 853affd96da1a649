//! Decoder for the STREAMINFO block: the mandatory metadata block that
//! carries the stream's global audio parameters in bit-packed
//! big-endian fields. The last four fields do not align to byte
//! boundaries, so the decoder leans on the bit-field reader.
use vstd::arithmetic::power2::{lemma2_to64, lemma2_to64_rest};
use vstd::prelude::*;

use crate::bits::{bits_value, lemma_bits_value_bound, read_bits};
use crate::file::FlacError;

verus! {

/// The declared payload length of a STREAMINFO block: eighteen bytes of
/// packed fields followed by a sixteen-byte checksum span.
pub const STREAM_INFO_LEN: usize = 34;

/// A parsed STREAMINFO block.
#[derive(Debug, Clone, Eq, PartialEq)]
pub struct StreamInfo {
    /// Minimum block size in samples.
    pub min_block_size: u16,
    /// Maximum block size in samples.
    pub max_block_size: u16,
    /// Minimum frame size in bytes.
    pub min_frame_size: u32,
    /// Maximum frame size in bytes.
    pub max_frame_size: u32,
    /// Sample rate in Hz.
    pub sample_rate: u32,
    /// Number of channels; stored in the payload as one less.
    pub num_channels: u8,
    /// Bits per sample; stored in the payload as one less.
    pub bit_depth: u8,
    /// Total number of samples in the stream; zero means unknown.
    pub total_samples: u64,
}

/// The StreamInfo value that a 34-byte payload denotes: each field is
/// the bit field the format fixes for it, most significant bit first.
/// `sample_rate`, `num_channels`, `bit_depth` and `total_samples` are
/// packed contiguously from bit offset 80 through byte 17.
pub open spec fn spec_stream_info(b: Seq<u8>) -> StreamInfo
    recommends
        b.len() == 34,
{
    StreamInfo {
        min_block_size: bits_value(b, 0, 16) as u16,
        max_block_size: bits_value(b, 16, 16) as u16,
        min_frame_size: bits_value(b, 32, 24) as u32,
        max_frame_size: bits_value(b, 56, 24) as u32,
        sample_rate: bits_value(b, 80, 20) as u32,
        num_channels: (bits_value(b, 100, 3) + 1) as u8,
        bit_depth: (bits_value(b, 103, 5) + 1) as u8,
        total_samples: bits_value(b, 108, 36) as u64,
    }
}

/// Reads a packed field that is known to lie inside the slice.
fn read_field(bytes: &[u8], offset: usize, width: usize) -> (v: u64)
    requires
        width <= 64,
        offset + width <= bytes@.len() * 8,
    ensures
        v as int == bits_value(bytes@, offset as int, width as nat),
{
    match read_bits(bytes, offset, width) {
        Ok(v) => v,
        Err(_) => {
            proof {
                assert(false);
            }
            0
        },
    }
}

impl StreamInfo {
    /// Returns a StreamInfo with every field zero.
    pub fn new() -> (r: StreamInfo)
        ensures
            r.min_block_size == 0,
            r.max_block_size == 0,
            r.min_frame_size == 0,
            r.max_frame_size == 0,
            r.sample_rate == 0,
            r.num_channels == 0,
            r.bit_depth == 0,
            r.total_samples == 0,
    {
        StreamInfo {
            min_block_size: 0,
            max_block_size: 0,
            min_frame_size: 0,
            max_frame_size: 0,
            sample_rate: 0,
            num_channels: 0,
            bit_depth: 0,
            total_samples: 0,
        }
    }

    /// Parses the bytes as a STREAMINFO payload. A payload whose length
    /// is not exactly 34 bytes is rejected as malformed; a payload of
    /// the right length always decodes, field by field.
    pub fn from_bytes(bytes: &[u8]) -> (r: Result<StreamInfo, FlacError>)
        ensures
            bytes@.len() == 34 ==> (r matches Ok(si) && si == spec_stream_info(bytes@)),
            bytes@.len() != 34 ==> r == Err::<StreamInfo, FlacError>(FlacError::MalformedBlock(0)),
    {
        if bytes.len() != STREAM_INFO_LEN {
            return Err(FlacError::MalformedBlock(0));
        }
        proof {
            lemma_bits_value_bound(bytes@, 0, 16);
            lemma_bits_value_bound(bytes@, 16, 16);
            lemma_bits_value_bound(bytes@, 32, 24);
            lemma_bits_value_bound(bytes@, 56, 24);
            lemma_bits_value_bound(bytes@, 80, 20);
            lemma_bits_value_bound(bytes@, 100, 3);
            lemma_bits_value_bound(bytes@, 103, 5);
            lemma_bits_value_bound(bytes@, 108, 36);
            lemma2_to64();
            lemma2_to64_rest();
        }
        let min_block_size = read_field(bytes, 0, 16) as u16;
        let max_block_size = read_field(bytes, 16, 16) as u16;
        let min_frame_size = read_field(bytes, 32, 24) as u32;
        let max_frame_size = read_field(bytes, 56, 24) as u32;
        let sample_rate = read_field(bytes, 80, 20) as u32;
        let num_channels = (read_field(bytes, 100, 3) as u8) + 1;
        let bit_depth = (read_field(bytes, 103, 5) as u8) + 1;
        let total_samples = read_field(bytes, 108, 36);
        Ok(
            StreamInfo {
                min_block_size,
                max_block_size,
                min_frame_size,
                max_frame_size,
                sample_rate,
                num_channels,
                bit_depth,
                total_samples,
            },
        )
    }
}

} // verus!

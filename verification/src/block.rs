//! Block framing and dispatch: the four-byte block header, the closed
//! enumeration of block types, the decoded block union, and the
//! dispatcher that routes a payload to its decoder. A decode failure
//! inside a recognized type is block-local: the dispatcher still hands
//! back the consumed bytes as a raw block so traversal can continue.
use vstd::prelude::*;

use crate::bits::{be24, be24_at};
use crate::file::FlacError;
use crate::stream_info::{spec_stream_info, StreamInfo};
use crate::vorbis_comment::{comments_view, vc_decode, VorbisComment};

verus! {

/// The block types the format names. Tags 7 and above carry no
/// meaning yet and are kept as `Reserved` with their raw value, so an
/// unknown tag is never an error.
#[derive(Clone, Copy, Debug, Eq, PartialEq)]
pub enum BlockType {
    StreamInfo,
    Padding,
    Application,
    SeekTable,
    VorbisComment,
    CueSheet,
    Picture,
    Reserved(u8),
}

/// The block type a raw 7-bit tag denotes.
pub open spec fn spec_block_type(n: u8) -> BlockType {
    if n == 0 {
        BlockType::StreamInfo
    } else if n == 1 {
        BlockType::Padding
    } else if n == 2 {
        BlockType::Application
    } else if n == 3 {
        BlockType::SeekTable
    } else if n == 4 {
        BlockType::VorbisComment
    } else if n == 5 {
        BlockType::CueSheet
    } else if n == 6 {
        BlockType::Picture
    } else {
        BlockType::Reserved(n)
    }
}

/// Maps a raw type tag to the closed enumeration. No value is
/// rejected: unrecognized tags are valid and map to `Reserved`.
pub fn from_u8(n: u8) -> (r: BlockType)
    ensures
        r == spec_block_type(n),
{
    match n {
        0 => BlockType::StreamInfo,
        1 => BlockType::Padding,
        2 => BlockType::Application,
        3 => BlockType::SeekTable,
        4 => BlockType::VorbisComment,
        5 => BlockType::CueSheet,
        6 => BlockType::Picture,
        _ => BlockType::Reserved(n),
    }
}

impl BlockType {
    /// The raw tag the type stands for.
    pub open spec fn spec_tag(self) -> u8 {
        match self {
            BlockType::StreamInfo => 0,
            BlockType::Padding => 1,
            BlockType::Application => 2,
            BlockType::SeekTable => 3,
            BlockType::VorbisComment => 4,
            BlockType::CueSheet => 5,
            BlockType::Picture => 6,
            BlockType::Reserved(n) => n,
        }
    }

    /// Returns the raw tag the type stands for.
    pub fn tag(self) -> (r: u8)
        ensures
            r == self.spec_tag(),
    {
        match self {
            BlockType::StreamInfo => 0,
            BlockType::Padding => 1,
            BlockType::Application => 2,
            BlockType::SeekTable => 3,
            BlockType::VorbisComment => 4,
            BlockType::CueSheet => 5,
            BlockType::Picture => 6,
            BlockType::Reserved(n) => n,
        }
    }
}

/// A decoded block header. Ephemeral: it is consumed at once to drive
/// payload decoding.
#[derive(Clone, Copy, Debug, Eq, PartialEq)]
pub struct BlockHeader {
    /// Whether this is the final metadata block before the audio
    /// frames.
    pub is_last: bool,
    /// The declared block type.
    pub block_type: BlockType,
    /// The declared payload size in bytes; at most 24 bits.
    pub block_size: u32,
}

/// The last-block flag of the header at byte offset `pos`: the most
/// significant bit of its first byte.
pub open spec fn hdr_is_last(bytes: Seq<u8>, pos: int) -> bool
    recommends
        0 <= pos < bytes.len(),
{
    bytes[pos] >= 128
}

/// The raw type tag of the header at byte offset `pos`: the remaining
/// seven bits of its first byte, never confused with the flag bit.
pub open spec fn hdr_tag(bytes: Seq<u8>, pos: int) -> u8
    recommends
        0 <= pos < bytes.len(),
{
    (bytes[pos] % 128) as u8
}

/// The declared payload size of the header at byte offset `pos`: a
/// 24-bit big-endian integer in its last three bytes.
pub open spec fn hdr_size(bytes: Seq<u8>, pos: int) -> int
    recommends
        0 <= pos,
        pos + 4 <= bytes.len(),
{
    be24(bytes, pos + 1)
}

/// Reads the fixed four-byte block header at byte offset `pos`. Fails
/// with `Truncated` exactly when fewer than four bytes remain; it does
/// not read the payload.
pub fn read_block_header(bytes: &[u8], pos: usize) -> (r: Result<BlockHeader, FlacError>)
    ensures
        pos + 4 <= bytes@.len() ==> (r matches Ok(h) && h.is_last == hdr_is_last(
            bytes@,
            pos as int,
        ) && h.block_type == spec_block_type(hdr_tag(bytes@, pos as int)) && h.block_size as int
            == hdr_size(bytes@, pos as int)),
        pos + 4 > bytes@.len() ==> r == Err::<BlockHeader, FlacError>(FlacError::Truncated),
{
    let n = bytes.len();
    if n < 4 || pos > n - 4 {
        return Err(FlacError::Truncated);
    }
    let b0 = bytes[pos];
    let is_last = b0 >= 128;
    let block_type = from_u8(b0 % 128);
    let block_size = be24_at(bytes, pos + 1);
    Ok(BlockHeader { is_last, block_type, block_size })
}

/// The parsed content of one metadata block.
#[derive(Clone, Debug, PartialEq, Eq)]
pub enum Block {
    /// A parsed STREAMINFO block.
    StreamInfo(StreamInfo),
    /// A parsed VORBIS_COMMENT block.
    VorbisComment(VorbisComment),
    /// The raw tag and bytes of a block that was not decoded: an
    /// unimplemented or reserved type, or a recognized type whose
    /// payload failed to decode.
    Raw(u8, Vec<u8>),
}

/// The mathematical value of a decoded block.
pub enum BlockModel {
    StreamInfo(StreamInfo),
    VorbisComment(Seq<char>, Seq<(Seq<char>, Seq<Seq<char>>)>),
    Raw(u8, Seq<u8>),
}

impl View for Block {
    type V = BlockModel;

    open spec fn view(&self) -> BlockModel {
        match self {
            Block::StreamInfo(si) => BlockModel::StreamInfo(*si),
            Block::VorbisComment(vc) => BlockModel::VorbisComment(
                vc.vendor_string@,
                comments_view(vc.comments@),
            ),
            Block::Raw(tag, data) => BlockModel::Raw(*tag, data@),
        }
    }
}

/// The models of a sequence of decoded blocks.
pub open spec fn blocks_view(s: Seq<Block>) -> Seq<BlockModel> {
    s.map_values(|b: Block| b@)
}

/// The metadata blocks of one stream, in stream order.
#[derive(Clone)]
pub struct FlacMeta {
    /// The metadata blocks contained in this stream.
    pub blocks: Vec<Block>,
}

impl FlacMeta {
    /// Returns an empty block list.
    pub fn new() -> (r: FlacMeta)
        ensures
            r.blocks@ == Seq::<Block>::empty(),
    {
        FlacMeta { blocks: Vec::new() }
    }

    /// Adds a block to the list.
    pub fn push_block(&mut self, block: Block)
        ensures
            final(self).blocks@ == old(self).blocks@.push(block),
    {
        self.blocks.push(block);
    }
}

/// What the dispatcher produces for one block: the decoded block and,
/// for a recognized type whose payload fails to decode, the
/// block-local error. Unrecognized and unimplemented types pass
/// through as raw bytes without error.
pub open spec fn spec_dispatch(bt: BlockType, payload: Seq<u8>) -> (BlockModel, Option<
    FlacError,
>) {
    match bt {
        BlockType::StreamInfo => {
            if payload.len() == 34 {
                (BlockModel::StreamInfo(spec_stream_info(payload)), None)
            } else {
                (BlockModel::Raw(0, payload), Some(FlacError::MalformedBlock(0)))
            }
        },
        BlockType::VorbisComment => {
            match vc_decode(payload) {
                Ok(m) => (BlockModel::VorbisComment(m.0, m.1), None),
                Err(e) => (BlockModel::Raw(4, payload), Some(e)),
            }
        },
        _ => (BlockModel::Raw(bt.spec_tag(), payload), None),
    }
}

/// Dispatches one block: decodes the payload of a recognized,
/// implemented type, and wraps every other payload, and every payload
/// that fails to decode, as a raw block so the stream stays
/// traversable.
pub fn process_block(header: &BlockHeader, payload: Vec<u8>) -> (r: (Block, Option<FlacError>))
    ensures
        r.0@ == spec_dispatch(header.block_type, payload@).0,
        r.1 == spec_dispatch(header.block_type, payload@).1,
{
    match header.block_type {
        BlockType::StreamInfo => {
            match StreamInfo::from_bytes(payload.as_slice()) {
                Ok(si) => (Block::StreamInfo(si), None),
                Err(e) => (Block::Raw(0, payload), Some(e)),
            }
        },
        BlockType::VorbisComment => {
            match VorbisComment::from_bytes(payload.as_slice()) {
                Ok(vc) => (Block::VorbisComment(vc), None),
                Err(e) => (Block::Raw(4, payload), Some(e)),
            }
        },
        _ => {
            let t = header.block_type.tag();
            (Block::Raw(t, payload), None)
        },
    }
}

/// Steps over the payload of a block whose content is not wanted,
/// returning the offset of the next block header. Fails with
/// `Truncated` exactly when the declared payload overruns the stream.
pub fn skip_block(bytes: &[u8], pos: usize, block_size: u32) -> (r: Result<usize, FlacError>)
    ensures
        pos + block_size <= bytes@.len() ==> (r matches Ok(p) && p == pos + block_size),
        pos + block_size > bytes@.len() ==> r == Err::<usize, FlacError>(FlacError::Truncated),
{
    let n = bytes.len();
    if pos > n || block_size as usize > n - pos {
        return Err(FlacError::Truncated);
    }
    Ok(pos + block_size as usize)
}

} // verus!

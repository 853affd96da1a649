//! Decoder for the metadata region of a FLAC container.
//!
//! A FLAC file begins with a four-byte marker followed by a sequence of
//! self-delimiting metadata blocks, each carrying a type tag, a payload
//! size, and a flag marking the final block. This crate validates the
//! marker, frames the blocks, decodes the STREAMINFO and VORBIS_COMMENT
//! payloads, and passes every other block through unchanged, so that a
//! stream with unknown block types is still fully traversable.
use vstd::prelude::*;

pub mod bits;
pub mod block;
pub mod file;
pub mod stream_info;
pub mod vorbis_comment;

use crate::bits::copy_range;
use crate::block::{
    blocks_view, hdr_is_last, hdr_size, hdr_tag, read_block_header, spec_block_type, spec_dispatch,
    BlockModel, FlacMeta,
};
use crate::file::{is_flac_marker, FlacError};

verus! {

/// The models of the blocks that framing yields from byte offset
/// `pos` on: one per fully framed block, up to and including the block
/// whose header carries the last-block flag, or up to the point where
/// a header or payload overruns the stream.
pub open spec fn spec_blocks(bytes: Seq<u8>, pos: int) -> Seq<BlockModel>
    decreases bytes.len() - pos,
        when 0 <= pos <= bytes.len()
{
    if pos + 4 > bytes.len() {
        Seq::empty()
    } else {
        let size = hdr_size(bytes, pos);
        if pos + 4 + size > bytes.len() {
            Seq::empty()
        } else {
            let m = spec_dispatch(
                spec_block_type(hdr_tag(bytes, pos)),
                bytes.subrange(pos + 4, pos + 4 + size),
            ).0;
            if hdr_is_last(bytes, pos) {
                seq![m]
            } else {
                seq![m] + spec_blocks(bytes, pos + 4 + size)
            }
        }
    }
}

/// How framing from byte offset `pos` ends: `None` after a last-block
/// flag or when the stream ends exactly at a header boundary, and
/// `Truncated` when a header or payload overruns the stream. Framing
/// failures are fatal; block-local decode failures are not recorded
/// here.
pub open spec fn tail_state(bytes: Seq<u8>, pos: int) -> Option<FlacError>
    decreases bytes.len() - pos,
        when 0 <= pos <= bytes.len()
{
    if pos + 4 > bytes.len() {
        if pos == bytes.len() {
            None
        } else {
            Some(FlacError::Truncated)
        }
    } else {
        let size = hdr_size(bytes, pos);
        if pos + 4 + size > bytes.len() {
            Some(FlacError::Truncated)
        } else if hdr_is_last(bytes, pos) {
            None
        } else {
            tail_state(bytes, pos + 4 + size)
        }
    }
}

/// The block-local errors that framing from byte offset `pos` yields,
/// each with the index (counting from `idx`) and raw tag of the block
/// it belongs to, in stream order.
pub open spec fn spec_errs(bytes: Seq<u8>, pos: int, idx: int) -> Seq<(usize, u8, FlacError)>
    decreases bytes.len() - pos,
        when 0 <= pos <= bytes.len()
{
    if pos + 4 > bytes.len() {
        Seq::empty()
    } else {
        let size = hdr_size(bytes, pos);
        if pos + 4 + size > bytes.len() {
            Seq::empty()
        } else {
            let tag = hdr_tag(bytes, pos);
            let e = spec_dispatch(
                spec_block_type(tag),
                bytes.subrange(pos + 4, pos + 4 + size),
            ).1;
            let head: Seq<(usize, u8, FlacError)> = match e {
                Some(err) => seq![(idx as usize, tag, err)],
                None => Seq::empty(),
            };
            if hdr_is_last(bytes, pos) {
                head
            } else {
                head + spec_errs(bytes, pos + 4 + size, idx + 1)
            }
        }
    }
}

/// Framing always terminates: every block costs at least its four
/// header bytes, so a finite stream yields at most a quarter as many
/// blocks as it has bytes past the marker.
pub proof fn lemma_blocks_bounded(bytes: Seq<u8>, pos: int)
    requires
        0 <= pos <= bytes.len(),
    ensures
        4 * spec_blocks(bytes, pos).len() <= bytes.len() - pos,
    decreases bytes.len() - pos,
{
    if pos + 4 <= bytes.len() {
        let size = hdr_size(bytes, pos);
        if pos + 4 + size <= bytes.len() && !hdr_is_last(bytes, pos) {
            lemma_blocks_bounded(bytes, pos + 4 + size);
        }
    }
}

/// A stream whose first block header carries the last-block flag and
/// whose declared payload fits yields exactly one block, and framing
/// ends cleanly.
pub proof fn lemma_first_block_last(bytes: Seq<u8>)
    requires
        bytes.len() >= 8,
        hdr_is_last(bytes, 4),
        8 + hdr_size(bytes, 4) <= bytes.len(),
    ensures
        spec_blocks(bytes, 4).len() == 1,
        tail_state(bytes, 4) is None,
{
}

/// Fail-soft dispatch: a well-formed header that declares a
/// StreamInfo block with a payload length other than 34 still lets
/// framing advance past the block. The block arrives as its raw
/// bytes, exactly one block-local error is recorded for it, and the
/// rest of the stream is traversed unchanged.
pub proof fn lemma_streaminfo_fail_soft(bytes: Seq<u8>, pos: int, idx: int)
    requires
        0 <= pos,
        pos + 4 <= bytes.len(),
        hdr_tag(bytes, pos) == 0,
        hdr_size(bytes, pos) != 34,
        pos + 4 + hdr_size(bytes, pos) <= bytes.len(),
        !hdr_is_last(bytes, pos),
    ensures
        spec_blocks(bytes, pos) == seq![
            BlockModel::Raw(0, bytes.subrange(pos + 4, pos + 4 + hdr_size(bytes, pos))),
        ] + spec_blocks(bytes, pos + 4 + hdr_size(bytes, pos)),
        spec_errs(bytes, pos, idx) == seq![(idx as usize, 0u8, FlacError::MalformedBlock(0))]
            + spec_errs(bytes, pos + 4 + hdr_size(bytes, pos), idx + 1),
        tail_state(bytes, pos) == tail_state(bytes, pos + 4 + hdr_size(bytes, pos)),
{
    let payload = bytes.subrange(pos + 4, pos + 4 + hdr_size(bytes, pos));
    assert(payload.len() != 34);
}

/// Unknown-type pass-through: a block whose tag names no implemented
/// decoder arrives as its raw tag and payload, unchanged and without
/// error, and framing advances past it.
pub proof fn lemma_unknown_passthrough(bytes: Seq<u8>, pos: int, idx: int)
    requires
        0 <= pos,
        pos + 4 <= bytes.len(),
        hdr_tag(bytes, pos) != 0,
        hdr_tag(bytes, pos) != 4,
        pos + 4 + hdr_size(bytes, pos) <= bytes.len(),
        !hdr_is_last(bytes, pos),
    ensures
        spec_blocks(bytes, pos) == seq![
            BlockModel::Raw(
                hdr_tag(bytes, pos),
                bytes.subrange(pos + 4, pos + 4 + hdr_size(bytes, pos)),
            ),
        ] + spec_blocks(bytes, pos + 4 + hdr_size(bytes, pos)),
        spec_errs(bytes, pos, idx) == spec_errs(bytes, pos + 4 + hdr_size(bytes, pos), idx + 1),
        tail_state(bytes, pos) == tail_state(bytes, pos + 4 + hdr_size(bytes, pos)),
{
    assert(spec_block_type(hdr_tag(bytes, pos)).spec_tag() == hdr_tag(bytes, pos));
    assert(spec_errs(bytes, pos, idx) =~= spec_errs(
        bytes,
        pos + 4 + hdr_size(bytes, pos),
        idx + 1,
    ));
}

/// Everything one parse pass hands back: the blocks decoded so far,
/// the block-local errors with the index and tag of the block each
/// belongs to, and the way the pass ended. `failure` is `None` exactly
/// when the marker was valid and framing ran to a clean end.
pub struct ParseOutcome {
    /// The decoded blocks, in stream order.
    pub meta: FlacMeta,
    /// One entry per recognized block whose payload failed to decode:
    /// its index in `meta.blocks`, its raw type tag, and the error.
    pub block_errors: Vec<(usize, u8, FlacError)>,
    /// The fatal error that ended the parse, if any.
    pub failure: Option<FlacError>,
}

/// Parses a whole stream: validates the marker, then frames and
/// dispatches blocks until a last-block flag, the end of the stream,
/// or a fatal framing failure. Callers always receive the blocks
/// decoded before a failure, never a bare abort.
pub fn process_flac(bytes: &[u8]) -> (r: ParseOutcome)
    ensures
        bytes@.len() < 4 ==> r.failure == Some(FlacError::Truncated) && r.meta.blocks@.len() == 0
            && r.block_errors@.len() == 0,
        bytes@.len() >= 4 && !is_flac_marker(bytes@) ==> r.failure == Some(FlacError::InvalidMarker)
            && r.meta.blocks@.len() == 0 && r.block_errors@.len() == 0,
        is_flac_marker(bytes@) ==> blocks_view(r.meta.blocks@) == spec_blocks(bytes@, 4)
            && r.failure == tail_state(bytes@, 4) && r.block_errors@ == spec_errs(bytes@, 4, 0),
{
    let n = bytes.len();
    if n < 4 {
        return ParseOutcome {
            meta: FlacMeta::new(),
            block_errors: Vec::new(),
            failure: Some(FlacError::Truncated),
        };
    }
    if !(bytes[0] == 0x66 && bytes[1] == 0x4C && bytes[2] == 0x61 && bytes[3] == 0x43) {
        return ParseOutcome {
            meta: FlacMeta::new(),
            block_errors: Vec::new(),
            failure: Some(FlacError::InvalidMarker),
        };
    }
    let mut meta = FlacMeta::new();
    let mut errs: Vec<(usize, u8, FlacError)> = Vec::new();
    let mut pos: usize = 4;
    proof {
        assert(blocks_view(meta.blocks@) =~= Seq::<BlockModel>::empty());
    }
    loop
        invariant
            n == bytes@.len(),
            4 <= pos <= n,
            is_flac_marker(bytes@),
            spec_blocks(bytes@, 4) == blocks_view(meta.blocks@) + spec_blocks(bytes@, pos as int),
            tail_state(bytes@, 4) == tail_state(bytes@, pos as int),
            spec_errs(bytes@, 4, 0) == errs@ + spec_errs(
                bytes@,
                pos as int,
                meta.blocks@.len() as int,
            ),
        decreases n - pos,
    {
        if n - pos < 4 {
            let failure = if pos == n {
                None
            } else {
                Some(FlacError::Truncated)
            };
            proof {
                assert(blocks_view(meta.blocks@) =~= spec_blocks(bytes@, 4));
                assert(errs@ =~= spec_errs(bytes@, 4, 0));
            }
            return ParseOutcome { meta, block_errors: errs, failure };
        }
        let header = match read_block_header(bytes, pos) {
            Ok(h) => h,
            Err(_) => {
                proof {
                    assert(false);
                }
                return ParseOutcome {
                    meta,
                    block_errors: errs,
                    failure: Some(FlacError::Truncated),
                };
            },
        };
        let size = header.block_size as usize;
        if size > n - (pos + 4) {
            proof {
                assert(blocks_view(meta.blocks@) =~= spec_blocks(bytes@, 4));
                assert(errs@ =~= spec_errs(bytes@, 4, 0));
            }
            return ParseOutcome { meta, block_errors: errs, failure: Some(FlacError::Truncated) };
        }
        let ghost blk_start = pos as int;
        let payload = copy_range(bytes, pos + 4, size);
        let (block, err) = crate::block::process_block(&header, payload);
        let idx = meta.blocks.len();
        let tag = header.block_type.tag();
        let ghost pre_blocks = meta.blocks@;
        let ghost pre_errs = errs@;
        meta.push_block(block);
        match err {
            Some(e) => errs.push((idx, tag, e)),
            None => {},
        }
        let is_last = header.is_last;
        pos = pos + 4 + size;
        proof {
            assert(spec_block_type(hdr_tag(bytes@, blk_start)).spec_tag() == hdr_tag(bytes@, blk_start));
            assert(blocks_view(meta.blocks@) =~= blocks_view(pre_blocks).push(block@));
            let m = spec_dispatch(
                spec_block_type(hdr_tag(bytes@, blk_start)),
                bytes@.subrange(blk_start + 4, blk_start + 4 + hdr_size(bytes@, blk_start)),
            );
            assert(block@ == m.0);
            let head: Seq<(usize, u8, FlacError)> = match m.1 {
                Some(e) => seq![(pre_blocks.len() as usize, hdr_tag(bytes@, blk_start), e)],
                None => Seq::empty(),
            };
            assert(errs@ =~= pre_errs + head);
            if is_last {
                assert(spec_blocks(bytes@, blk_start) =~= seq![m.0]);
                assert(spec_errs(bytes@, blk_start, pre_blocks.len() as int) =~= head);
                assert(blocks_view(meta.blocks@) =~= spec_blocks(bytes@, 4));
                assert(errs@ =~= spec_errs(bytes@, 4, 0));
            } else {
                assert(spec_blocks(bytes@, blk_start) =~= seq![m.0] + spec_blocks(bytes@, pos as int));
                assert(spec_errs(bytes@, blk_start, pre_blocks.len() as int) =~= head + spec_errs(
                    bytes@,
                    pos as int,
                    pre_blocks.len() as int + 1,
                ));
                assert(spec_blocks(bytes@, 4) =~= blocks_view(meta.blocks@) + spec_blocks(
                    bytes@,
                    pos as int,
                ));
                assert(spec_errs(bytes@, 4, 0) =~= errs@ + spec_errs(
                    bytes@,
                    pos as int,
                    meta.blocks@.len() as int,
                ));
            }
        }
        if is_last {
            return ParseOutcome { meta, block_errors: errs, failure: None };
        }
    }
}

} // verus!

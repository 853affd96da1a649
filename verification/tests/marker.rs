use metasonic::block::{from_u8, read_block_header, skip_block, Block, BlockType, FlacMeta};
use metasonic::file::{valid_flac_marker, FlacError};

#[test]
fn test_valid_flac_marker_io_error() {
    let input: Result<Vec<u8>, String> = Err("Mock I/O error".to_string());
    let result = valid_flac_marker(&input);
    assert_eq!(result, Err(FlacError::IoError("Mock I/O error".to_owned())));
}

#[test]
fn marker_accepts_signature() {
    let input: Result<Vec<u8>, String> = Ok(vec![0x66, 0x4C, 0x61, 0x43]);
    assert_eq!(valid_flac_marker(&input), Ok(()));
}

#[test]
fn marker_rejects_other_bytes() {
    let input: Result<Vec<u8>, String> = Ok(vec![0x4F, 0x67, 0x67, 0x53]);
    assert_eq!(valid_flac_marker(&input), Err(FlacError::InvalidMarker));
}

#[test]
fn marker_rejects_short_read() {
    let input: Result<Vec<u8>, String> = Ok(vec![0x66, 0x4C, 0x61]);
    assert_eq!(valid_flac_marker(&input), Err(FlacError::Truncated));
}

#[test]
fn marker_ignores_trailing_bytes() {
    let input: Result<Vec<u8>, String> = Ok(vec![0x66, 0x4C, 0x61, 0x43, 0xFF]);
    assert_eq!(valid_flac_marker(&input), Ok(()));
}

#[test]
fn header_fields_decode() {
    // Last-block flag set, tag 4, 24-bit big-endian size 0x010203.
    let bytes = [0x84u8, 0x01, 0x02, 0x03];
    let h = read_block_header(&bytes, 0).unwrap();
    assert!(h.is_last);
    assert_eq!(h.block_type, BlockType::VorbisComment);
    assert_eq!(h.block_size, 0x010203);
}

#[test]
fn header_flag_bit_is_not_part_of_the_tag() {
    // 0x80 is StreamInfo with the flag, not tag 128.
    let bytes = [0x80u8, 0x00, 0x00, 0x22];
    let h = read_block_header(&bytes, 0).unwrap();
    assert!(h.is_last);
    assert_eq!(h.block_type, BlockType::StreamInfo);
    assert_eq!(h.block_size, 34);
}

#[test]
fn header_needs_four_bytes() {
    let bytes = [0x00u8, 0x00];
    assert_eq!(read_block_header(&bytes, 0), Err(FlacError::Truncated));
}

#[test]
fn header_reads_at_an_offset() {
    let bytes = [0xEEu8, 0xEE, 0x06, 0x00, 0x00, 0x07];
    let h = read_block_header(&bytes, 2).unwrap();
    assert!(!h.is_last);
    assert_eq!(h.block_type, BlockType::Picture);
    assert_eq!(h.block_size, 7);
}

#[test]
fn tag_mapping_is_the_published_one() {
    assert_eq!(from_u8(0), BlockType::StreamInfo);
    assert_eq!(from_u8(1), BlockType::Padding);
    assert_eq!(from_u8(2), BlockType::Application);
    assert_eq!(from_u8(3), BlockType::SeekTable);
    assert_eq!(from_u8(4), BlockType::VorbisComment);
    assert_eq!(from_u8(5), BlockType::CueSheet);
    assert_eq!(from_u8(6), BlockType::Picture);
    assert_eq!(from_u8(7), BlockType::Reserved(7));
    assert_eq!(from_u8(126), BlockType::Reserved(126));
}

#[test]
fn skip_block_advances_past_the_payload() {
    let bytes = [0u8; 12];
    assert_eq!(skip_block(&bytes, 4, 8), Ok(12));
    assert_eq!(skip_block(&bytes, 4, 9), Err(FlacError::Truncated));
}

#[test]
fn push_block_keeps_stream_order() {
    let mut meta = FlacMeta::new();
    assert!(meta.blocks.is_empty());
    meta.push_block(Block::Raw(9, vec![1]));
    meta.push_block(Block::Raw(10, vec![2]));
    assert_eq!(meta.blocks.len(), 2);
    assert_eq!(meta.blocks[0], Block::Raw(9, vec![1]));
    assert_eq!(meta.blocks[1], Block::Raw(10, vec![2]));
}

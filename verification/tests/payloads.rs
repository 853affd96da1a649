use metasonic::bits::read_bits;
use metasonic::file::FlacError;
use metasonic::stream_info::StreamInfo;
use metasonic::vorbis_comment::VorbisComment;

/// The 18 packed bytes of the reference STREAMINFO fixture, without
/// the trailing 16-byte checksum span.
fn reference_stream_info_fields() -> Vec<u8> {
    vec![
        0x12, 0x00, // min_block_size 4608
        0x12, 0x00, // max_block_size 4608
        0x00, 0x03, 0x0F, // min_frame_size 783
        0x00, 0x12, 0x88, // max_frame_size 4744
        0x0B, 0xB8, // sample_rate high bits
        0x02, // sample_rate low nibble, channels, bit depth high bit
        0xF0, // bit depth low bits, total_samples high nibble
        0x00, 0x01, 0x0B, 0xC2, // total_samples 68546
    ]
}

fn reference_stream_info_payload() -> Vec<u8> {
    let mut payload = reference_stream_info_fields();
    payload.extend([0u8; 16]);
    payload
}

#[test]
fn bit_field_at_offset_80() {
    let payload = reference_stream_info_payload();
    assert_eq!(read_bits(&payload, 80, 20), Ok(48000));
}

#[test]
fn bit_field_straddles_byte_boundaries() {
    let bytes = [0xABu8, 0xCD];
    assert_eq!(read_bits(&bytes, 4, 12), Ok(0xBCD));
}

#[test]
fn bit_field_whole_slice() {
    let bytes = [0x12u8, 0x34, 0x56];
    assert_eq!(read_bits(&bytes, 0, 24), Ok(0x123456));
}

#[test]
fn bit_field_width_zero_is_zero() {
    let bytes = [0xFFu8];
    assert_eq!(read_bits(&bytes, 3, 0), Ok(0));
}

#[test]
fn bit_field_full_width() {
    let bytes = [0xFFu8; 8];
    assert_eq!(read_bits(&bytes, 0, 64), Ok(u64::MAX));
}

#[test]
fn bit_field_past_end_is_out_of_bounds() {
    let bytes = [0u8; 4];
    assert_eq!(read_bits(&bytes, 20, 20), Err(FlacError::OutOfBounds));
    assert_eq!(read_bits(&bytes, 32, 1), Err(FlacError::OutOfBounds));
}

#[test]
fn stream_info_reference_fixture() {
    let payload = reference_stream_info_payload();
    let si = StreamInfo::from_bytes(&payload).unwrap();
    assert_eq!(si.min_block_size, 4608);
    assert_eq!(si.max_block_size, 4608);
    assert_eq!(si.min_frame_size, 783);
    assert_eq!(si.max_frame_size, 4744);
    assert_eq!(si.sample_rate, 48000);
    assert_eq!(si.num_channels, 2);
    assert_eq!(si.bit_depth, 16);
    assert_eq!(si.total_samples, 68546);
}

#[test]
fn stream_info_extreme_channel_and_depth() {
    let mut payload = vec![0u8; 34];
    // Channels raw 7 and bit depth raw 31, packed around bit 100.
    payload[12] = 0x0F;
    payload[13] = 0xF0;
    let si = StreamInfo::from_bytes(&payload).unwrap();
    assert_eq!(si.num_channels, 8);
    assert_eq!(si.bit_depth, 32);
    assert_eq!(si.sample_rate, 0);
    assert_eq!(si.total_samples, 0);
}

#[test]
fn stream_info_wrong_length_is_malformed() {
    let payload = vec![0u8; 10];
    assert_eq!(StreamInfo::from_bytes(&payload), Err(FlacError::MalformedBlock(0)));
    let payload = vec![0u8; 35];
    assert_eq!(StreamInfo::from_bytes(&payload), Err(FlacError::MalformedBlock(0)));
}

#[test]
fn stream_info_new_is_all_zero() {
    let si = StreamInfo::new();
    assert_eq!(si.min_block_size, 0);
    assert_eq!(si.total_samples, 0);
    assert_eq!(si.num_channels, 0);
}

fn vorbis_payload(vendor: &[u8], entries: &[&[u8]]) -> Vec<u8> {
    let mut p = Vec::new();
    p.extend((vendor.len() as u32).to_le_bytes());
    p.extend(vendor);
    p.extend((entries.len() as u32).to_le_bytes());
    for e in entries {
        p.extend((e.len() as u32).to_le_bytes());
        p.extend(*e);
    }
    p
}

#[test]
fn vorbis_comment_uppercases_and_groups() {
    let p = vorbis_payload(b"reference encoder", &[b"ARTIST=Foo", b"artist=Bar"]);
    let vc = VorbisComment::from_bytes(&p).unwrap();
    assert_eq!(vc.vendor_string, "reference encoder");
    assert_eq!(vc.comments.len(), 1);
    assert_eq!(vc.comments[0].0, "ARTIST");
    assert_eq!(vc.comments[0].1, vec!["Foo".to_string(), "Bar".to_string()]);
}

#[test]
fn vorbis_comment_keeps_key_order_and_values_raw() {
    let p = vorbis_payload(b"v", &[b"title=A=B", b"Album=x", b"TITLE=c"]);
    let vc = VorbisComment::from_bytes(&p).unwrap();
    assert_eq!(vc.comments.len(), 2);
    assert_eq!(vc.comments[0].0, "TITLE");
    assert_eq!(vc.comments[0].1, vec!["A=B".to_string(), "c".to_string()]);
    assert_eq!(vc.comments[1].0, "ALBUM");
    assert_eq!(vc.comments[1].1, vec!["x".to_string()]);
}

#[test]
fn vorbis_comment_decodes_multibyte_values() {
    let p = vorbis_payload("verifier".as_bytes(), &["genre=Füü".as_bytes()]);
    let vc = VorbisComment::from_bytes(&p).unwrap();
    assert_eq!(vc.comments[0].0, "GENRE");
    assert_eq!(vc.comments[0].1, vec!["Füü".to_string()]);
}

#[test]
fn vorbis_comment_empty_list() {
    let p = vorbis_payload(b"", &[]);
    let vc = VorbisComment::from_bytes(&p).unwrap();
    assert_eq!(vc.vendor_string, "");
    assert!(vc.comments.is_empty());
}

#[test]
fn vorbis_comment_vendor_overrun_is_out_of_bounds() {
    let p = 10u32.to_le_bytes().to_vec();
    assert_eq!(VorbisComment::from_bytes(&p), Err(FlacError::OutOfBounds));
}

#[test]
fn vorbis_comment_entry_overrun_is_out_of_bounds() {
    let mut p = vorbis_payload(b"v", &[]);
    // Declare one entry but give it no length field at all.
    let len = p.len();
    p[len - 4] = 1;
    assert_eq!(VorbisComment::from_bytes(&p), Err(FlacError::OutOfBounds));
}

#[test]
fn vorbis_comment_invalid_vendor_utf8() {
    let mut p = Vec::new();
    p.extend(2u32.to_le_bytes());
    p.extend([0xFF, 0xFE]);
    p.extend(0u32.to_le_bytes());
    assert_eq!(VorbisComment::from_bytes(&p), Err(FlacError::Utf8Error));
}

#[test]
fn vorbis_comment_invalid_value_utf8() {
    let p = vorbis_payload(b"v", &[b"A=\xFF"]);
    assert_eq!(VorbisComment::from_bytes(&p), Err(FlacError::Utf8Error));
}

#[test]
fn vorbis_comment_entry_without_separator_is_malformed() {
    let p = vorbis_payload(b"v", &[b"NOSEPARATOR"]);
    assert_eq!(VorbisComment::from_bytes(&p), Err(FlacError::MalformedBlock(4)));
}

#[test]
fn vorbis_comment_new_is_empty() {
    let vc = VorbisComment::new();
    assert_eq!(vc.vendor_string, "");
    assert!(vc.comments.is_empty());
}

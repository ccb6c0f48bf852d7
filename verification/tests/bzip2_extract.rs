use binwalk::extractors::bzip2::{bzip2_decompressor, bzip2_extractor, finalize_write_failure};
use binwalk::extractors::common::{ExtractionResult, ExtractorType, InternalExtractor};
use std::io::Write;

fn compress(data: &[u8]) -> Vec<u8> {
    let mut encoder = bzip2::write::BzEncoder::new(Vec::new(), bzip2::Compression::new(9));
    encoder.write_all(data).unwrap();
    encoder.finish().unwrap()
}

#[test]
fn test_bzip2_extractor_descriptor() {
    let e = bzip2_extractor();
    assert_eq!(e.utility, ExtractorType::Internal(InternalExtractor::Bzip2));
}

#[test]
fn test_decompress_offset_past_end() {
    let member = compress(b"payload");
    let (result, output) = bzip2_decompressor(&member, member.len());
    assert!(!result.success);
    assert_eq!(result.size, None);
    assert!(output.is_empty());
    let (result, output) = bzip2_decompressor(&[], 0);
    assert!(!result.success);
    assert_eq!(result.size, None);
    assert!(output.is_empty());
}

#[test]
fn test_single_member() {
    let plain = b"hello bzip2 stream";
    let member = compress(plain);
    let (result, output) = bzip2_decompressor(&member, 0);
    assert!(result.success);
    assert_eq!(result.size, Some(member.len()));
    assert_eq!(output, plain);
}

#[test]
fn test_single_member_at_offset() {
    let plain = b"offset data";
    let member = compress(plain);
    let mut buffer = vec![0x11u8, 0x22, 0x33];
    buffer.extend_from_slice(&member);
    let (result, output) = bzip2_decompressor(&buffer, 3);
    assert!(result.success);
    assert_eq!(result.size, Some(member.len()));
    assert_eq!(output, plain);
}

#[test]
fn test_two_concatenated_members() {
    let first = b"first member plaintext";
    let second = b"and the second member";
    let m1 = compress(first);
    let m2 = compress(second);
    let mut buffer = m1.clone();
    buffer.extend_from_slice(&m2);
    let (result, output) = bzip2_decompressor(&buffer, 0);
    assert!(result.success);
    // exact combined encoded length of both members
    assert_eq!(result.size, Some(m1.len() + m2.len()));
    // the artifact is the concatenation of both members' plaintext
    let mut expected = first.to_vec();
    expected.extend_from_slice(second);
    assert_eq!(output, expected);
}

#[test]
fn test_second_member_corrupt() {
    let first = b"the good member";
    let m1 = compress(first);
    let mut m2 = compress(b"the broken member");
    m2[0] ^= 0xff;
    let mut buffer = m1.clone();
    buffer.extend_from_slice(&m2);
    let (result, output) = bzip2_decompressor(&buffer, 0);
    // the first member already succeeded
    assert!(result.success);
    // only the first member's consumed length is counted
    assert_eq!(result.size, Some(m1.len()));
    assert_eq!(output, first);
}

#[test]
fn test_garbage_input() {
    let garbage = vec![0x5au8; 64];
    let (result, output) = bzip2_decompressor(&garbage, 0);
    assert!(!result.success);
    // a decode error reports the bytes consumed so far, even when zero
    assert_eq!(result.size, Some(0));
    assert!(output.is_empty());
}

#[test]
fn test_truncated_member() {
    let member = compress(b"some longer payload that will be cut short 0123456789");
    let truncated = &member[..member.len() / 2];
    let (result, output) = bzip2_decompressor(truncated, 0);
    assert!(!result.success);
    assert_eq!(result.size, Some(0));
    assert!(output.is_empty());
}

#[test]
fn test_write_failure_keeps_partial_success() {
    // members that already decoded stay a success; the consumed size stays
    let scan = ExtractionResult { success: true, size: Some(42) };
    let r = finalize_write_failure(scan);
    assert!(r.success);
    assert_eq!(r.size, Some(42));
    // with nothing consumed, the size is reported as zero, not absent
    let r = finalize_write_failure(ExtractionResult::default());
    assert!(!r.success);
    assert_eq!(r.size, Some(0));
}

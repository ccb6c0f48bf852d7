use binwalk::extractors::cpio::{
    cpio_extractor, extract_cpio, extract_cpio_entry, finalize_extraction_result, CPIOEntry,
    EntryAction, EOF_MARKER,
};
use binwalk::extractors::common::{ExtractionResult, ExtractorType, InternalExtractor};
use binwalk::structures::cpio::{byte_padding, encode_cpio_entry_header, CPIOFileType};

fn build_entry(mode: usize, name: &str, data: &[u8], dev_major: usize, dev_minor: usize) -> Vec<u8> {
    let mut out = encode_cpio_entry_header(mode, data.len(), name, dev_major, dev_minor);
    out.extend_from_slice(data);
    for _ in 0..byte_padding(data.len()) {
        out.push(0);
    }
    out
}

fn build_archive() -> Vec<u8> {
    let mut archive = build_entry(0o100755, "a.txt", b"hi", 0, 0);
    archive.extend_from_slice(&build_entry(0o040755, "dir", b"", 0, 0));
    archive.extend_from_slice(&build_entry(0, EOF_MARKER, b"", 0, 0));
    archive
}

#[test]
fn test_cpio_extractor_descriptor() {
    let e = cpio_extractor();
    assert_eq!(e.utility, ExtractorType::Internal(InternalExtractor::Cpio));
}

#[test]
fn test_archive_total_size() {
    // "a.txt": header 116, data 2 padded to 4 -> 120
    // "dir": header 116, no data -> 116
    // trailer "TRAILER!!!": header 110 + 11 = 121 padded to 124 -> 124
    let archive = build_archive();
    let (result, entries) = extract_cpio(&archive, 0);
    assert!(result.success);
    assert_eq!(result.size, Some(120 + 116 + 124));
    assert_eq!(entries.len(), 2);
}

#[test]
fn test_recorded_entries() {
    let archive = build_archive();
    let (_, entries) = extract_cpio(&archive, 0);
    assert_eq!(entries[0].name, "a.txt");
    assert_eq!(entries[0].file_type, CPIOFileType::Regular);
    assert_eq!(entries[0].mode, 0o100755);
    assert_eq!(entries[0].data_offset, 116);
    // the recorded data size is the decoded size, padding stripped
    assert_eq!(entries[0].data_size, 2);
    assert_eq!(entries[1].name, "dir");
    assert_eq!(entries[1].file_type, CPIOFileType::Directory);
    assert_eq!(entries[1].data_offset, 120 + 116);
    assert_eq!(entries[1].data_size, 0);
}

#[test]
fn test_archive_at_offset() {
    let mut buffer = vec![0xaa, 0xbb, 0xcc, 0xdd];
    buffer.extend_from_slice(&build_archive());
    let (result, entries) = extract_cpio(&buffer, 4);
    assert!(result.success);
    assert_eq!(result.size, Some(360));
    assert_eq!(entries[0].data_offset, 4 + 116);
    assert_eq!(entries.len(), 2);
}

#[test]
fn test_missing_trailer() {
    let archive = build_entry(0o100644, "a.txt", b"hi", 0, 0);
    let (result, entries) = extract_cpio(&archive, 0);
    assert!(!result.success);
    assert_eq!(result.size, None);
    assert_eq!(entries.len(), 1);
}

#[test]
fn test_offset_past_end() {
    let archive = build_archive();
    let (result, entries) = extract_cpio(&archive, archive.len() + 10);
    assert!(!result.success);
    assert_eq!(result.size, None);
    assert!(entries.is_empty());
}

#[test]
fn test_garbage_buffer() {
    let garbage = vec![0x00u8; 4096];
    let (result, entries) = extract_cpio(&garbage, 0);
    assert!(!result.success);
    assert_eq!(result.size, None);
    assert!(entries.is_empty());
}

#[test]
fn test_entries_after_trailer_ignored() {
    let mut archive = build_archive();
    archive.extend_from_slice(&build_entry(0o100644, "late.txt", b"data", 0, 0));
    let (result, entries) = extract_cpio(&archive, 0);
    assert!(result.success);
    assert_eq!(result.size, Some(360));
    assert_eq!(entries.len(), 2);
}

fn entry(file_type: CPIOFileType, mode: usize, offset: usize, size: usize) -> CPIOEntry {
    CPIOEntry {
        name: "n".to_string(),
        file_type,
        mode,
        data_offset: offset,
        data_size: size,
        dev_major: 8,
        dev_minor: 1,
    }
}

#[test]
fn test_regular_file_action_strips_padding() {
    // data_size decoded as 5: the carved file is exactly 5 bytes
    let data = b"0123456789abcdef";
    let a = extract_cpio_entry(data, &entry(CPIOFileType::Regular, 0o100644, 4, 5));
    assert_eq!(
        a,
        EntryAction::CarveFile { offset: 4, size: 5, make_executable: false }
    );
}

#[test]
fn test_regular_file_action_executable() {
    let data = b"0123456789abcdef";
    let a = extract_cpio_entry(data, &entry(CPIOFileType::Regular, 0o100755, 0, 3));
    assert_eq!(
        a,
        EntryAction::CarveFile { offset: 0, size: 3, make_executable: true }
    );
}

#[test]
fn test_device_actions_carry_major_minor() {
    let data = b"";
    let block = extract_cpio_entry(data, &entry(CPIOFileType::BlockDevice, 0o060644, 0, 0));
    assert_eq!(block, EntryAction::CreateBlockDevice { major: 8, minor: 1 });
    let ch = extract_cpio_entry(data, &entry(CPIOFileType::CharDevice, 0o020600, 0, 0));
    assert_eq!(ch, EntryAction::CreateCharDevice { major: 8, minor: 1 });
}

#[test]
fn test_other_actions() {
    let data = b"";
    assert_eq!(
        extract_cpio_entry(data, &entry(CPIOFileType::Directory, 0o040755, 0, 0)),
        EntryAction::CreateDirectory
    );
    assert_eq!(
        extract_cpio_entry(data, &entry(CPIOFileType::Fifo, 0o010644, 0, 0)),
        EntryAction::CreateFifo
    );
    assert_eq!(
        extract_cpio_entry(data, &entry(CPIOFileType::Socket, 0o140755, 0, 0)),
        EntryAction::CreateSocket
    );
}

#[test]
fn test_unknown_type_is_skipped() {
    let a = extract_cpio_entry(b"", &entry(CPIOFileType::Unknown, 0, 0, 0));
    assert_eq!(a, EntryAction::Skip);
}

#[test]
fn test_symlink_target_truncated_at_nul() {
    let data = b"..target/path\0\0\0";
    let a = extract_cpio_entry(data, &entry(CPIOFileType::Symlink, 0o120777, 2, 14));
    assert_eq!(a, EntryAction::CreateSymlink { target: "target/path".to_string() });
}

#[test]
fn test_symlink_bad_utf8_is_skipped() {
    let data = &[0xffu8, 0xfe, 0x00, 0x00];
    let a = extract_cpio_entry(data, &entry(CPIOFileType::Symlink, 0o120777, 0, 4));
    assert_eq!(a, EntryAction::Skip);
}

#[test]
fn test_symlink_out_of_bounds_is_skipped() {
    let a = extract_cpio_entry(b"abc", &entry(CPIOFileType::Symlink, 0o120777, 2, 10));
    assert_eq!(a, EntryAction::Skip);
}

#[test]
fn test_finalize_downgrades_on_zero_extracted() {
    let scan = ExtractionResult { success: true, size: Some(360) };
    let downgraded = finalize_extraction_result(scan, 0);
    assert!(!downgraded.success);
    assert_eq!(downgraded.size, Some(360));
    let kept = finalize_extraction_result(scan, 2);
    assert!(kept.success);
    assert_eq!(kept.size, Some(360));
}

use binwalk::common::is_offset_safe;
use binwalk::extractors::common::{ExtractionResult, Extractor, ExtractorType};

#[test]
fn test_extraction_result_default() {
    let r = ExtractionResult::default();
    assert!(!r.success);
    assert_eq!(r.size, None);
}

#[test]
fn test_extractor_default_has_no_handler() {
    let e = Extractor::default();
    assert_eq!(e.utility, ExtractorType::Missing);
}

#[test]
fn test_is_offset_safe() {
    assert!(is_offset_safe(10, 0, None));
    assert!(is_offset_safe(10, 9, None));
    assert!(!is_offset_safe(10, 10, None));
    assert!(!is_offset_safe(10, 11, None));
    assert!(!is_offset_safe(0, 0, None));
    assert!(is_offset_safe(10, 5, Some(4)));
    assert!(!is_offset_safe(10, 5, Some(5)));
    assert!(!is_offset_safe(10, 4, Some(5)));
}

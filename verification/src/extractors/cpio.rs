//! CPIO archive walker: enumerates entry headers at strictly advancing
//! offsets, recognizes the sentinel trailer entry, and plans how each
//! recorded entry is materialized inside the sandbox.
use vstd::prelude::*;

use crate::common::is_offset_safe;
use crate::extractors::common::{ExtractionResult, Extractor, ExtractorType, InternalExtractor};
use crate::structures::common::string_from_utf8;
use crate::structures::cpio::{
    lemma_parse_header_sizes, parse_cpio_entry_header, spec_parse_cpio_header, CPIOFileType,
    S_IXGRP, S_IXOTH, S_IXUSR,
};

verus! {

/// Name of the sentinel entry that marks end-of-archive.
pub const EOF_MARKER: &'static str = "TRAILER!!!";

pub open spec fn spec_trailer_name() -> Seq<char> {
    EOF_MARKER@
}

/// The descriptor of the CPIO format handler.
pub fn cpio_extractor() -> (e: Extractor)
    ensures
        e.utility == ExtractorType::Internal(InternalExtractor::Cpio),
{
    Extractor { utility: ExtractorType::Internal(InternalExtractor::Cpio) }
}

/// One recorded archive entry, consumed to drive materialization.
/// `data_size` is the size exactly as decoded, with the on-disk alignment
/// padding already stripped.
#[derive(Debug, Clone)]
pub struct CPIOEntry {
    pub name: String,
    pub file_type: CPIOFileType,
    pub mode: usize,
    pub data_offset: usize,
    pub data_size: usize,
    pub dev_major: usize,
    pub dev_minor: usize,
}

/// Mathematical image of a recorded archive entry.
pub ghost struct SpecCPIOEntry {
    pub name: Seq<char>,
    pub file_type: CPIOFileType,
    pub mode: int,
    pub data_offset: int,
    pub data_size: int,
    pub dev_major: int,
    pub dev_minor: int,
}

impl View for CPIOEntry {
    type V = SpecCPIOEntry;

    open spec fn view(&self) -> SpecCPIOEntry {
        SpecCPIOEntry {
            name: self.name@,
            file_type: self.file_type,
            mode: self.mode as int,
            data_offset: self.data_offset as int,
            data_size: self.data_size as int,
            dev_major: self.dev_major as int,
            dev_minor: self.dev_minor as int,
        }
    }
}

/// Outcome of scanning an archive from a given offset: whether the sentinel
/// trailer was reached, the accumulated `header_size + data_size` of every
/// parsed entry (sentinel included), the recorded non-sentinel entries, and
/// the individual totals behind the accumulation.
pub ghost struct SpecCpioScan {
    pub found_trailer: bool,
    pub total_size: int,
    pub entries: Seq<SpecCPIOEntry>,
    pub entry_totals: Seq<int>,
    pub trailer_total: int,
}

/// The scan that `extract_cpio` performs, as a recursive function over the
/// buffer: stop at the first offset that is out of bounds or whose header
/// fails to parse; stop with success at the sentinel entry; otherwise record
/// the entry and advance by its full (aligned) extent.
pub open spec fn spec_cpio_scan(data: Seq<u8>, offset: int) -> SpecCpioScan
    decreases data.len() - offset,
{
    if offset < 0 || offset >= data.len() {
        SpecCpioScan {
            found_trailer: false,
            total_size: 0,
            entries: Seq::empty(),
            entry_totals: Seq::empty(),
            trailer_total: 0,
        }
    } else {
        match spec_parse_cpio_header(data.subrange(offset, data.len() as int)) {
            None => SpecCpioScan {
                found_trailer: false,
                total_size: 0,
                entries: Seq::empty(),
                entry_totals: Seq::empty(),
                trailer_total: 0,
            },
            Some(h) => {
                let entry_total = h.header_size + h.data_size;
                if h.file_name == spec_trailer_name() {
                    SpecCpioScan {
                        found_trailer: true,
                        total_size: entry_total,
                        entries: Seq::empty(),
                        entry_totals: Seq::empty(),
                        trailer_total: entry_total,
                    }
                } else {
                    let e = SpecCPIOEntry {
                        name: h.file_name,
                        file_type: h.file_type,
                        mode: h.mode,
                        data_offset: offset + h.header_size,
                        data_size: h.raw_data_size,
                        dev_major: h.dev_major,
                        dev_minor: h.dev_minor,
                    };
                    let next = offset + entry_total;
                    if next >= data.len() || next <= offset {
                        SpecCpioScan {
                            found_trailer: false,
                            total_size: entry_total,
                            entries: seq![e],
                            entry_totals: seq![entry_total],
                            trailer_total: 0,
                        }
                    } else {
                        let rest = spec_cpio_scan(data, next);
                        SpecCpioScan {
                            found_trailer: rest.found_trailer,
                            total_size: entry_total + rest.total_size,
                            entries: seq![e] + rest.entries,
                            entry_totals: seq![entry_total] + rest.entry_totals,
                            trailer_total: rest.trailer_total,
                        }
                    }
                }
            },
        }
    }
}

/// Scans the archive that starts at `offset`: enumerates entry headers until
/// one fails to parse, an offset stops advancing inside the buffer, or the
/// sentinel trailer is reached. Returns the result of the scan (success
/// exactly when the trailer was found, with the archive's total size) and
/// the recorded entries, ready to be materialized.
pub fn extract_cpio(file_data: &[u8], offset: usize) -> (r: (ExtractionResult, Vec<CPIOEntry>))
    requires
        // headroom for size accounting: one header can claim a 32-bit data
        // size plus alignment beyond the buffer end without overflowing
        file_data@.len() + 0x2_0000_0000 <= usize::MAX,
    ensures
        ({
            let scan = spec_cpio_scan(file_data@, offset as int);
            &&& r.0.success == scan.found_trailer
            &&& r.0.size == (if scan.found_trailer {
                Some(scan.total_size as usize)
            } else {
                None::<usize>
            })
            &&& r.1@.map_values(|e: CPIOEntry| e@) == scan.entries
        }),
{
    let ghost scan0 = spec_cpio_scan(file_data@, offset as int);
    let available_data: usize = file_data.len();
    let mut next_offset: usize = offset;
    let mut previous_offset: Option<usize> = None;
    let mut total_size: usize = 0;
    let mut entries: Vec<CPIOEntry> = Vec::new();
    let mut result = ExtractionResult::default();

    loop
        invariant_except_break
            available_data == file_data@.len(),
            file_data@.len() + 0x2_0000_0000 <= usize::MAX,
            offset <= next_offset,
            total_size as int == next_offset as int - offset as int,
            previous_offset matches Some(p) ==> p < next_offset,
            result.success == false,
            result.size is None,
            scan0.found_trailer == spec_cpio_scan(file_data@, next_offset as int).found_trailer,
            scan0.total_size == total_size + spec_cpio_scan(
                file_data@,
                next_offset as int,
            ).total_size,
            scan0.entries == entries@.map_values(|e: CPIOEntry| e@) + spec_cpio_scan(
                file_data@,
                next_offset as int,
            ).entries,
        ensures
            result.success == scan0.found_trailer,
            result.size == (if scan0.found_trailer {
                Some(scan0.total_size as usize)
            } else {
                None::<usize>
            }),
            entries@.map_values(|e: CPIOEntry| e@) == scan0.entries,
        decreases (if next_offset <= available_data {
            available_data - next_offset
        } else {
            0int
        }),
    {
        if !is_offset_safe(available_data, next_offset, previous_offset) {
            break;
        }
        let entry_data = vstd::slice::slice_subrange(file_data, next_offset, available_data);
        let header = match parse_cpio_entry_header(entry_data) {
            Err(_) => {
                break;
            },
            Ok(h) => h,
        };
        proof {
            lemma_parse_header_sizes(entry_data@);
        }
        let entry_total_size = header.header_size + header.data_size;
        total_size = total_size + entry_total_size;

        let trailer: String = EOF_MARKER.to_owned();
        if header.file_name == trailer {
            result.success = true;
            result.size = Some(total_size);
            break;
        }

        let data_offset = next_offset + header.header_size;
        let entry = CPIOEntry {
            name: header.file_name,
            file_type: header.file_type,
            mode: header.mode,
            data_offset,
            data_size: header.raw_data_size,
            dev_major: header.dev_major,
            dev_minor: header.dev_minor,
        };
        proof {
            let f = |e: CPIOEntry| e@;
            assert(entries@.push(entry).map_values(f) =~= entries@.map_values(f).push(entry@));
            let cur = next_offset as int;
            let rest = spec_cpio_scan(file_data@, cur + entry_total_size);
            assert(seq![entry@] + rest.entries =~= rest.entries.insert(0, entry@));
            assert(entries@.map_values(f).push(entry@) + rest.entries =~= entries@.map_values(f)
                + (seq![entry@] + rest.entries));
        }
        entries.push(entry);
        previous_offset = Some(next_offset);
        next_offset = next_offset + entry_total_size;
    }

    (result, entries)
}

/// The filesystem operation that materializes one archive entry; executed
/// by the surrounding system against the sandboxed output root. `Skip`
/// records a logged, non-fatal failure of that entry alone.
#[derive(Debug, Clone, PartialEq, Eq)]
pub enum EntryAction {
    CreateDirectory,
    CarveFile { offset: usize, size: usize, make_executable: bool },
    CreateSymlink { target: String },
    CreateFifo,
    CreateSocket,
    CreateBlockDevice { major: usize, minor: usize },
    CreateCharDevice { major: usize, minor: usize },
    Skip,
}

/// The prefix of `s` up to (not including) its first NUL byte.
pub open spec fn take_until_nul(s: Seq<u8>) -> Seq<u8>
    decreases s.len(),
{
    if s.len() == 0 || s[0] == 0 {
        Seq::empty()
    } else {
        seq![s[0]] + take_until_nul(s.drop_first())
    }
}

/// Plans how one recorded entry is materialized. Regular files carve their
/// (already unpadded) byte range and carry the execute bit; symlink targets
/// are read from the entry's data region, truncated at the first NUL byte,
/// and must decode as UTF-8; device nodes carry the parsed major/minor
/// numbers; an out-of-bounds data region, a non-UTF-8 symlink target, or an
/// unknown file type yields `Skip`.
pub fn extract_cpio_entry(file_data: &[u8], entry: &CPIOEntry) -> (a: EntryAction)
    ensures
        entry.file_type == CPIOFileType::Directory ==> a == EntryAction::CreateDirectory,
        entry.file_type == CPIOFileType::Regular ==> a == (EntryAction::CarveFile {
            offset: entry.data_offset,
            size: entry.data_size,
            make_executable: entry.mode & (S_IXUSR | S_IXGRP | S_IXOTH) != 0,
        }),
        entry.file_type == CPIOFileType::Symlink ==> {
            if entry.data_offset + entry.data_size > file_data@.len() {
                a == EntryAction::Skip
            } else {
                let target_bytes = take_until_nul(
                    file_data@.subrange(
                        entry.data_offset as int,
                        entry.data_offset + entry.data_size,
                    ),
                );
                if vstd::utf8::valid_utf8(target_bytes) {
                    a matches EntryAction::CreateSymlink { target } && target@
                        == vstd::utf8::decode_utf8(target_bytes)
                } else {
                    a == EntryAction::Skip
                }
            }
        },
        entry.file_type == CPIOFileType::Fifo ==> a == EntryAction::CreateFifo,
        entry.file_type == CPIOFileType::Socket ==> a == EntryAction::CreateSocket,
        entry.file_type == CPIOFileType::BlockDevice ==> a == (EntryAction::CreateBlockDevice {
            major: entry.dev_major,
            minor: entry.dev_minor,
        }),
        entry.file_type == CPIOFileType::CharDevice ==> a == (EntryAction::CreateCharDevice {
            major: entry.dev_major,
            minor: entry.dev_minor,
        }),
        entry.file_type == CPIOFileType::Unknown ==> a == EntryAction::Skip,
{
    match entry.file_type {
        CPIOFileType::Directory => EntryAction::CreateDirectory,
        CPIOFileType::Regular => EntryAction::CarveFile {
            offset: entry.data_offset,
            size: entry.data_size,
            make_executable: crate::structures::cpio::is_executable(entry.mode),
        },
        CPIOFileType::Symlink => {
            if entry.data_offset > file_data.len() || entry.data_size > file_data.len()
                - entry.data_offset {
                return EntryAction::Skip;
            }
            let ghost region = file_data@.subrange(
                entry.data_offset as int,
                entry.data_offset + entry.data_size,
            );
            let mut target_clean: Vec<u8> = Vec::new();
            let mut i: usize = 0;
            proof {
                assert(region.subrange(0, region.len() as int) =~= region);
                assert(Seq::<u8>::empty() + take_until_nul(region) =~= take_until_nul(region));
            }
            while i < entry.data_size
                invariant_except_break
                    i <= entry.data_size,
                    entry.data_offset + entry.data_size <= file_data@.len() <= usize::MAX,
                    region == file_data@.subrange(
                        entry.data_offset as int,
                        entry.data_offset + entry.data_size,
                    ),
                    take_until_nul(region) == target_clean@ + take_until_nul(
                        region.subrange(i as int, region.len() as int),
                    ),
                ensures
                    target_clean@ == take_until_nul(region),
                decreases entry.data_size - i,
            {
                let b = *vstd::slice::slice_index_get(file_data, entry.data_offset + i);
                proof {
                    let rest = region.subrange(i as int, region.len() as int);
                    assert(rest[0] == b);
                    if b != 0 {
                        assert(rest.drop_first() =~= region.subrange(
                            i + 1,
                            region.len() as int,
                        ));
                        assert(target_clean@.push(b) + take_until_nul(
                            region.subrange(i + 1, region.len() as int),
                        ) =~= target_clean@ + (seq![b] + take_until_nul(
                            region.subrange(i + 1, region.len() as int),
                        )));
                    }
                }
                if b == 0 {
                    break;
                }
                target_clean.push(b);
                i = i + 1;
            }
            proof {
                if i == entry.data_size {
                    assert(region.subrange(i as int, region.len() as int).len() == 0);
                }
            }
            match string_from_utf8(target_clean) {
                Some(target) => EntryAction::CreateSymlink { target },
                None => EntryAction::Skip,
            }
        },
        CPIOFileType::Fifo => EntryAction::CreateFifo,
        CPIOFileType::Socket => EntryAction::CreateSocket,
        CPIOFileType::BlockDevice => EntryAction::CreateBlockDevice {
            major: entry.dev_major,
            minor: entry.dev_minor,
        },
        CPIOFileType::CharDevice => EntryAction::CreateCharDevice {
            major: entry.dev_major,
            minor: entry.dev_minor,
        },
        CPIOFileType::Unknown => EntryAction::Skip,
    }
}

/// Sum of a sequence of integers.
pub open spec fn sum_seq(s: Seq<int>) -> int
    decreases s.len(),
{
    if s.len() == 0 {
        0
    } else {
        s[0] + sum_seq(s.drop_first())
    }
}

/// Law: when the scan finds the sentinel trailer, the total size it reports
/// is the sum of `header_size + data_size` over every parsed entry, the
/// sentinel entry included.
pub proof fn lemma_cpio_total_size(data: Seq<u8>, offset: int)
    requires
        spec_cpio_scan(data, offset).found_trailer,
    ensures
        spec_cpio_scan(data, offset).total_size == sum_seq(
            spec_cpio_scan(data, offset).entry_totals,
        ) + spec_cpio_scan(data, offset).trailer_total,
    decreases data.len() - offset,
{
    let scan = spec_cpio_scan(data, offset);
    if offset < 0 || offset >= data.len() {
    } else {
        match spec_parse_cpio_header(data.subrange(offset, data.len() as int)) {
            None => {},
            Some(h) => {
                let entry_total = h.header_size + h.data_size;
                if h.file_name == spec_trailer_name() {
                } else {
                    let next = offset + entry_total;
                    if next >= data.len() || next <= offset {
                    } else {
                        let rest = spec_cpio_scan(data, next);
                        lemma_cpio_total_size(data, next);
                        assert((seq![entry_total] + rest.entry_totals).drop_first()
                            =~= rest.entry_totals);
                    }
                }
            },
        }
    }
}

/// The archive-level success rule applied after materialization was
/// attempted: a structurally valid archive out of which not a single entry
/// could be materialized is not a success; the consumed size is unchanged.
pub fn finalize_extraction_result(scan_result: ExtractionResult, extracted_count: usize) -> (r:
    ExtractionResult)
    ensures
        r.size == scan_result.size,
        r.success == (scan_result.success && extracted_count > 0),
{
    ExtractionResult {
        success: scan_result.success && extracted_count > 0,
        size: scan_result.size,
    }
}

} // verus!

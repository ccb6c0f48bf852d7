//! Streaming multi-member bzip2 decompressor: iterates over concatenated
//! compressed members from a fixed offset, keeping partial success when a
//! later member is corrupt, and guarding against decoders that make no
//! progress.
use vstd::prelude::*;

use crate::extractors::common::{ExtractionResult, Extractor, ExtractorType, InternalExtractor};

verus! {

/// What reading the first compressed member of a byte sequence yields: the
/// decoded bytes, the count of input bytes actually consumed, and whether
/// decoding ended cleanly. A function of the bytes alone.
pub uninterp spec fn bz_first_member(data: Seq<u8>) -> (Seq<u8>, nat, bool);

pub open spec fn bz_member_output(data: Seq<u8>) -> Seq<u8> {
    bz_first_member(data).0
}

pub open spec fn bz_member_consumed(data: Seq<u8>) -> nat {
    bz_first_member(data).1
}

pub open spec fn bz_member_ok(data: Seq<u8>) -> bool {
    bz_first_member(data).2
}

/// Relies on `bzip2::read::BzDecoder`: reading it to the end decodes exactly
/// the first compressed member of `data`, its `total_in` counter is the
/// number of input bytes the decompressor consumed (never more than the
/// input's length), and a corrupt or truncated member is an `Err` from
/// `read`, never a panic. On an error the decoded bytes are unspecified and
/// are discarded.
#[verifier::external_body]
fn decode_first_member(data: &[u8]) -> (r: (Vec<u8>, usize, bool))
    ensures
        r.2 == bz_first_member(data@).2,
        r.2 ==> r.0@ == bz_first_member(data@).0 && r.1 as nat == bz_first_member(data@).1,
        r.1 <= data@.len(),
{
    let mut out: Vec<u8> = Vec::new();
    let mut decoder = ::bzip2::read::BzDecoder::new(std::io::Cursor::new(data));
    match std::io::Read::read_to_end(&mut decoder, &mut out) {
        Ok(_) => {
            let consumed = decoder.total_in() as usize;
            (out, consumed, true)
        },
        Err(_) => (Vec::new(), 0, false),
    }
}

/// The descriptor of the bzip2 format handler.
pub fn bzip2_extractor() -> (e: Extractor)
    ensures
        e.utility == ExtractorType::Internal(InternalExtractor::Bzip2),
{
    Extractor { utility: ExtractorType::Internal(InternalExtractor::Bzip2) }
}

/// Outcome of decompressing concatenated members from a given offset:
/// total input bytes consumed by the members that finished cleanly, whether
/// any of them produced output, the concatenated decoded output, and whether
/// the iteration was stopped by a decode error.
pub ghost struct SpecBzScan {
    pub consumed: int,
    pub any_output: bool,
    pub output: Seq<u8>,
    pub errored: bool,
}

/// The member-concatenation loop as a recursive function: each step decodes
/// one member from the remaining input; a decode error stops everything
/// (keeping earlier members' results); a member that consumed nothing stops
/// the iteration (its output is still kept, but counts for nothing); any
/// other member's consumption advances the offset.
pub open spec fn spec_bz_scan(data: Seq<u8>, offset: int) -> SpecBzScan
    decreases data.len() - offset,
{
    if offset < 0 || offset >= data.len() {
        SpecBzScan { consumed: 0, any_output: false, output: Seq::empty(), errored: false }
    } else {
        let sub = data.subrange(offset, data.len() as int);
        if !bz_member_ok(sub) {
            SpecBzScan { consumed: 0, any_output: false, output: Seq::empty(), errored: true }
        } else {
            let c = bz_member_consumed(sub) as int;
            let out = bz_member_output(sub);
            if c < 1 || offset + c > data.len() {
                SpecBzScan { consumed: 0, any_output: false, output: out, errored: false }
            } else {
                let rest = spec_bz_scan(data, offset + c);
                SpecBzScan {
                    consumed: c + rest.consumed,
                    any_output: out.len() > 0 || rest.any_output,
                    output: out + rest.output,
                    errored: rest.errored,
                }
            }
        }
    }
}

/// Decompresses concatenated compressed members starting at `offset`,
/// returning the extraction result and the decoded output (one continuous
/// logical stream per invocation). Success means at least one member
/// produced decoded bytes; the reported size counts input bytes consumed,
/// and is present after an error even when zero.
pub fn bzip2_decompressor(file_data: &[u8], offset: usize) -> (r: (ExtractionResult, Vec<u8>))
    ensures
        offset >= file_data@.len() ==> r.0.success == false && r.0.size is None && r.1@
            =~= Seq::<u8>::empty(),
        offset < file_data@.len() ==> ({
            let scan = spec_bz_scan(file_data@, offset as int);
            &&& r.0.success == scan.any_output
            &&& r.0.size == (if scan.errored || scan.consumed > 0 {
                Some(scan.consumed as usize)
            } else {
                None::<usize>
            })
            &&& r.1@ == scan.output
        }),
{
    let mut result = ExtractionResult::default();

    if offset >= file_data.len() {
        return (result, Vec::new());
    }
    let ghost scan0 = spec_bz_scan(file_data@, offset as int);
    let available: usize = file_data.len();
    let mut total_consumed: usize = 0;
    let mut any_decompressed = false;
    let mut current_offset: usize = offset;
    let mut output: Vec<u8> = Vec::new();

    loop
        invariant_except_break
            available == file_data@.len(),
            offset <= current_offset,
            total_consumed as int == current_offset as int - offset as int,
            result.success == false,
            result.size is None,
            scan0 == spec_bz_scan(file_data@, offset as int),
            offset < file_data@.len(),
            scan0.consumed == total_consumed + spec_bz_scan(
                file_data@,
                current_offset as int,
            ).consumed,
            scan0.any_output == (any_decompressed || spec_bz_scan(
                file_data@,
                current_offset as int,
            ).any_output),
            scan0.output == output@ + spec_bz_scan(file_data@, current_offset as int).output,
            scan0.errored == spec_bz_scan(file_data@, current_offset as int).errored,
        ensures
            available == file_data@.len(),
            scan0 == spec_bz_scan(file_data@, offset as int),
            result.success == false,
            result.size is None,
            scan0.any_output == any_decompressed,
            scan0.consumed == total_consumed as int,
            scan0.output == output@,
            scan0.errored == false,
        decreases available - current_offset,
    {
        if current_offset >= available {
            break;
        }
        let slice = vstd::slice::slice_subrange(file_data, current_offset, available);
        let (mut member_out, consumed, ok) = decode_first_member(slice);

        if !ok {
            // decode error: stop everything, preserving prior partial success
            result.success = any_decompressed;
            result.size = Some(total_consumed);
            return (result, output);
        }
        let produced_output = member_out.len() > 0;
        output.append(&mut member_out);

        if consumed == 0 {
            // the decoder made no progress; stop to avoid looping forever
            break;
        }
        current_offset = current_offset + consumed;
        total_consumed = total_consumed + consumed;
        if produced_output {
            any_decompressed = true;
        }
    }

    result.success = any_decompressed;
    result.size = if total_consumed > 0 {
        Some(total_consumed)
    } else {
        None
    };
    (result, output)
}

/// The stream-level rule when appending decoded output to the artifact
/// fails: the run stops where the write failed, keeping the success of the
/// members already decoded, and the input consumed so far is reported even
/// when it is zero (as after a decode error).
pub fn finalize_write_failure(scan_result: ExtractionResult) -> (r: ExtractionResult)
    ensures
        r.success == scan_result.success,
        r.size == (match scan_result.size {
            Some(consumed) => Some(consumed),
            None => Some(0usize),
        }),
{
    ExtractionResult {
        success: scan_result.success,
        size: match scan_result.size {
            Some(consumed) => Some(consumed),
            None => Some(0),
        },
    }
}

/// Law: a buffer that ends exactly after two cleanly decoding, consuming
/// members yields success with the exact combined encoded length of both
/// members consumed, and the output is the concatenation of both members'
/// decoded bytes.
pub proof fn lemma_two_members(data: Seq<u8>, offset: int)
    requires
        0 <= offset < data.len(),
        bz_member_ok(data.subrange(offset, data.len() as int)),
        bz_member_output(data.subrange(offset, data.len() as int)).len() > 0,
        0 < bz_member_consumed(data.subrange(offset, data.len() as int)),
        offset + bz_member_consumed(data.subrange(offset, data.len() as int)) < data.len(),
        ({
            let next = offset + bz_member_consumed(data.subrange(offset, data.len() as int));
            let s2 = data.subrange(next, data.len() as int);
            &&& bz_member_ok(s2)
            &&& 0 < bz_member_consumed(s2)
            &&& next + bz_member_consumed(s2) == data.len()
        }),
    ensures
        ({
            let s1 = data.subrange(offset, data.len() as int);
            let next = offset + bz_member_consumed(s1);
            let s2 = data.subrange(next, data.len() as int);
            let scan = spec_bz_scan(data, offset);
            &&& scan.any_output
            &&& !scan.errored
            &&& scan.consumed == bz_member_consumed(s1) + bz_member_consumed(s2)
            &&& scan.output == bz_member_output(s1) + bz_member_output(s2)
        }),
{
    let s1 = data.subrange(offset, data.len() as int);
    let next = offset + bz_member_consumed(s1);
    let s2 = data.subrange(next, data.len() as int);
    let scan2 = spec_bz_scan(data, next);
    let scan3 = spec_bz_scan(data, next + bz_member_consumed(s2));
    assert(scan3.consumed == 0 && !scan3.any_output && scan3.output =~= Seq::<u8>::empty()
        && !scan3.errored);
    assert(bz_member_output(s2) + Seq::<u8>::empty() =~= bz_member_output(s2));
    assert(spec_bz_scan(data, offset).output =~= bz_member_output(s1) + bz_member_output(s2));
}

/// Law: when the second member is corrupt, the result is still a success
/// (the first member already succeeded) and the consumed size counts only
/// the first member; its output alone is kept.
pub proof fn lemma_second_member_corrupt(data: Seq<u8>, offset: int)
    requires
        0 <= offset < data.len(),
        bz_member_ok(data.subrange(offset, data.len() as int)),
        bz_member_output(data.subrange(offset, data.len() as int)).len() > 0,
        0 < bz_member_consumed(data.subrange(offset, data.len() as int)),
        offset + bz_member_consumed(data.subrange(offset, data.len() as int)) < data.len(),
        !bz_member_ok(
            data.subrange(
                offset + bz_member_consumed(data.subrange(offset, data.len() as int)),
                data.len() as int,
            ),
        ),
    ensures
        ({
            let s1 = data.subrange(offset, data.len() as int);
            let scan = spec_bz_scan(data, offset);
            &&& scan.any_output
            &&& scan.errored
            &&& scan.consumed == bz_member_consumed(s1)
            &&& scan.output == bz_member_output(s1)
        }),
{
    let s1 = data.subrange(offset, data.len() as int);
    let next = offset + bz_member_consumed(s1);
    let scan2 = spec_bz_scan(data, next);
    assert(scan2.errored && scan2.consumed == 0 && !scan2.any_output && scan2.output
        =~= Seq::<u8>::empty());
    assert(bz_member_output(s1) + Seq::<u8>::empty() =~= bz_member_output(s1));
}

} // verus!

//! Parser for CPIO (newc) entry headers: fixed-width ASCII-hexadecimal
//! fields at fixed offsets, followed by a NUL-terminated file name, with the
//! header and data regions each padded to a 4-byte boundary.
use vstd::prelude::*;

use crate::hexnum::{parse_hex_field, spec_parse_hex_field};
use crate::structures::common::{string_from_utf8, StructureError};

verus! {

use vstd::string::StrSliceExecFns;

/// Fixed size of the CPIO entry header, up to (not including) the file name.
pub const CPIO_HEADER_SIZE: usize = 110;

pub const NULL_BYTE_SIZE: usize = 1;

pub const CPIO_MAGIC_START: usize = 0;

pub const CPIO_MAGIC_END: usize = 6;

pub const MODE_START: usize = 14;

pub const MODE_END: usize = 22;

pub const DEV_MAJOR_START: usize = 22;

pub const DEV_MAJOR_END: usize = 30;

pub const DEV_MINOR_START: usize = 30;

pub const DEV_MINOR_END: usize = 38;

pub const FILE_SIZE_START: usize = 54;

pub const FILE_SIZE_END: usize = 62;

pub const FILE_NAME_SIZE_START: usize = 94;

pub const FILE_NAME_SIZE_END: usize = 102;

pub const S_IFMT: usize = 0o170000;

pub const S_IFREG: usize = 0o100000;

pub const S_IFDIR: usize = 0o040000;

pub const S_IFLNK: usize = 0o120000;

pub const S_IFBLK: usize = 0o060000;

pub const S_IFCHR: usize = 0o020000;

pub const S_IFIFO: usize = 0o010000;

pub const S_IFSOCK: usize = 0o140000;

pub const S_IXUSR: usize = 0o100;

pub const S_IXGRP: usize = 0o010;

pub const S_IXOTH: usize = 0o001;

/// File-type classification derived from the permission-mode bitmask.
/// `Unknown` is the safe default for unrecognized bit patterns.
#[derive(Debug, Clone, Copy, PartialEq, Eq, Structural)]
pub enum CPIOFileType {
    Regular,
    Directory,
    Symlink,
    BlockDevice,
    CharDevice,
    Fifo,
    Socket,
    Unknown,
}

impl Default for CPIOFileType {
    fn default() -> (r: Self)
        ensures
            r == CPIOFileType::Unknown,
    {
        CPIOFileType::Unknown
    }
}

/// The file type encoded in a permission mode, by the Unix type bitmask.
pub open spec fn spec_file_type(mode: usize) -> CPIOFileType {
    let bits = mode & S_IFMT;
    if bits == S_IFREG {
        CPIOFileType::Regular
    } else if bits == S_IFDIR {
        CPIOFileType::Directory
    } else if bits == S_IFLNK {
        CPIOFileType::Symlink
    } else if bits == S_IFBLK {
        CPIOFileType::BlockDevice
    } else if bits == S_IFCHR {
        CPIOFileType::CharDevice
    } else if bits == S_IFIFO {
        CPIOFileType::Fifo
    } else if bits == S_IFSOCK {
        CPIOFileType::Socket
    } else {
        CPIOFileType::Unknown
    }
}

/// Classifies a permission mode by masking its file-type bits.
pub fn parse_file_type(mode: usize) -> (t: CPIOFileType)
    ensures
        t == spec_file_type(mode),
{
    let bits = mode & S_IFMT;
    if bits == S_IFREG {
        CPIOFileType::Regular
    } else if bits == S_IFDIR {
        CPIOFileType::Directory
    } else if bits == S_IFLNK {
        CPIOFileType::Symlink
    } else if bits == S_IFBLK {
        CPIOFileType::BlockDevice
    } else if bits == S_IFCHR {
        CPIOFileType::CharDevice
    } else if bits == S_IFIFO {
        CPIOFileType::Fifo
    } else if bits == S_IFSOCK {
        CPIOFileType::Socket
    } else {
        CPIOFileType::Unknown
    }
}

/// True when any of the user, group or other execute bits is set.
pub fn is_executable(mode: usize) -> (r: bool)
    ensures
        r == (mode & (S_IXUSR | S_IXGRP | S_IXOTH) != 0),
{
    (mode & (S_IXUSR | S_IXGRP | S_IXOTH)) != 0
}

/// Bytes needed to round `n` up to the next multiple of 4.
pub open spec fn spec_padding(n: int) -> int {
    if n % 4 == 0 {
        0
    } else {
        4 - n % 4
    }
}

pub proof fn lemma_padding_aligns(n: int)
    requires
        n >= 0,
    ensures
        0 <= spec_padding(n) <= 3,
        (n + spec_padding(n)) % 4 == 0,
{
    vstd::arithmetic::div_mod::lemma_fundamental_div_mod(n, 4);
    if n % 4 != 0 {
        assert(n + spec_padding(n) == 4 * (n / 4 + 1));
        assert((4 * (n / 4 + 1)) % 4 == 0) by {
            vstd::arithmetic::div_mod::lemma_mod_multiples_basic(n / 4 + 1, 4);
        }
    } else {
        assert(n + spec_padding(n) == 4 * (n / 4));
        assert((4 * (n / 4)) % 4 == 0) by {
            vstd::arithmetic::div_mod::lemma_mod_multiples_basic(n / 4, 4);
        }
    }
}

/// Alignment padding for a region of `n` bytes.
pub fn byte_padding(n: usize) -> (r: usize)
    ensures
        r == spec_padding(n as int),
        r <= 3,
        (n as int + r as int) % 4 == 0,
{
    proof {
        lemma_padding_aligns(n as int);
    }
    let modulus: usize = n % 4;
    if modulus == 0 {
        0
    } else {
        4 - modulus
    }
}

/// Parsed representation of one CPIO entry header. `data_size` and
/// `header_size` are rounded up to the 4-byte alignment the format uses on
/// disk; `raw_data_size` is the size exactly as decoded, so that
/// materialization can strip the alignment padding.
#[derive(Debug, Clone)]
pub struct CPIOEntryHeader {
    pub magic: Vec<u8>,
    pub data_size: usize,
    pub raw_data_size: usize,
    pub file_name: String,
    pub header_size: usize,
    pub mode: usize,
    pub file_type: CPIOFileType,
    pub dev_major: usize,
    pub dev_minor: usize,
}

/// Mathematical image of a parsed CPIO entry header.
pub ghost struct SpecCPIOEntryHeader {
    pub magic: Seq<u8>,
    pub data_size: int,
    pub raw_data_size: int,
    pub file_name: Seq<char>,
    pub header_size: int,
    pub mode: int,
    pub file_type: CPIOFileType,
    pub dev_major: int,
    pub dev_minor: int,
}

impl View for CPIOEntryHeader {
    type V = SpecCPIOEntryHeader;

    open spec fn view(&self) -> SpecCPIOEntryHeader {
        SpecCPIOEntryHeader {
            magic: self.magic@,
            data_size: self.data_size as int,
            raw_data_size: self.raw_data_size as int,
            file_name: self.file_name@,
            header_size: self.header_size as int,
            mode: self.mode as int,
            file_type: self.file_type,
            dev_major: self.dev_major as int,
            dev_minor: self.dev_minor as int,
        }
    }
}

/// What parsing an entry header at the start of `data` yields: each fixed
/// sub-slice — the magic included — must decode as ASCII-hexadecimal text
/// (the numeric fields are 8 digits each at a fixed offset), the
/// file name follows the fixed header (its stored length counts a trailing
/// NUL that is excluded from the name) and must lie inside `data` and decode
/// as UTF-8; header and data sizes are rounded up to 4-byte alignment and
/// must fit the machine word. Any violation fails the whole parse.
pub open spec fn spec_parse_cpio_header(data: Seq<u8>) -> Option<SpecCPIOEntryHeader> {
    if data.len() <= CPIO_HEADER_SIZE {
        None
    } else {
        let magic = spec_parse_hex_field(
            data.subrange(CPIO_MAGIC_START as int, CPIO_MAGIC_END as int),
        );
        let mode = spec_parse_hex_field(data.subrange(MODE_START as int, MODE_END as int));
        let dev_major = spec_parse_hex_field(
            data.subrange(DEV_MAJOR_START as int, DEV_MAJOR_END as int),
        );
        let dev_minor = spec_parse_hex_field(
            data.subrange(DEV_MINOR_START as int, DEV_MINOR_END as int),
        );
        let file_size = spec_parse_hex_field(
            data.subrange(FILE_SIZE_START as int, FILE_SIZE_END as int),
        );
        let name_size = spec_parse_hex_field(
            data.subrange(FILE_NAME_SIZE_START as int, FILE_NAME_SIZE_END as int),
        );
        if magic is None || mode is None || dev_major is None || dev_minor is None
            || file_size is None || name_size is None {
            None
        } else {
            let ns = name_size->0 as int;
            if ns < 1 || CPIO_HEADER_SIZE + ns - 1 > data.len() {
                None
            } else {
                let name_bytes = data.subrange(
                    CPIO_HEADER_SIZE as int,
                    CPIO_HEADER_SIZE + ns - 1,
                );
                if !vstd::utf8::valid_utf8(name_bytes) {
                    None
                } else {
                    let raw = file_size->0 as int;
                    let padded_data = raw + spec_padding(raw);
                    let header_total = CPIO_HEADER_SIZE + ns;
                    let padded_header = header_total + spec_padding(header_total);
                    if padded_data > usize::MAX as int || padded_header > usize::MAX as int {
                        None
                    } else {
                        Some(
                            SpecCPIOEntryHeader {
                                magic: data.subrange(CPIO_MAGIC_START as int, CPIO_MAGIC_END as int),
                                data_size: padded_data,
                                raw_data_size: raw,
                                file_name: vstd::utf8::decode_utf8(name_bytes),
                                header_size: padded_header,
                                mode: mode->0 as int,
                                file_type: spec_file_type(mode->0 as usize),
                                dev_major: dev_major->0 as int,
                                dev_minor: dev_minor->0 as int,
                            },
                        )
                    }
                }
            }
        }
    }
}

/// Bounds that every successfully parsed header obeys: the header region is
/// at least the fixed header plus one name byte and never reaches more than
/// one alignment step past the data it was parsed from; sizes decoded from
/// 8-digit fields are below 2^32; both derived sizes are 4-byte aligned.
pub proof fn lemma_parse_header_sizes(data: Seq<u8>)
    requires
        spec_parse_cpio_header(data) is Some,
    ensures
        ({
            let h = spec_parse_cpio_header(data)->0;
            &&& 111 <= h.header_size <= data.len() + 4
            &&& 0 <= h.raw_data_size < 0x1_0000_0000
            &&& h.raw_data_size <= h.data_size <= h.raw_data_size + 3
            &&& h.header_size % 4 == 0
            &&& h.data_size % 4 == 0
            &&& 0 <= h.mode < 0x1_0000_0000
            &&& 0 <= h.dev_major < 0x1_0000_0000
            &&& 0 <= h.dev_minor < 0x1_0000_0000
        }),
{
    let h = spec_parse_cpio_header(data)->0;
    let ns_field = data.subrange(FILE_NAME_SIZE_START as int, FILE_NAME_SIZE_END as int);
    let fs_field = data.subrange(FILE_SIZE_START as int, FILE_SIZE_END as int);
    let mode_field = data.subrange(MODE_START as int, MODE_END as int);
    let major_field = data.subrange(DEV_MAJOR_START as int, DEV_MAJOR_END as int);
    let minor_field = data.subrange(DEV_MINOR_START as int, DEV_MINOR_END as int);
    lemma_parse_hex_field_bound(ns_field);
    lemma_parse_hex_field_bound(fs_field);
    lemma_parse_hex_field_bound(mode_field);
    lemma_parse_hex_field_bound(major_field);
    lemma_parse_hex_field_bound(minor_field);
    let ns = spec_parse_hex_field(ns_field)->0 as int;
    let raw = spec_parse_hex_field(fs_field)->0 as int;
    lemma_padding_aligns(raw);
    lemma_padding_aligns(CPIO_HEADER_SIZE + ns);
}

/// The value of any hexadecimal field of at most 8 digits is below 2^32.
pub proof fn lemma_parse_hex_field_bound(s: Seq<u8>)
    requires
        s.len() <= 8,
        spec_parse_hex_field(s) is Some,
    ensures
        spec_parse_hex_field(s)->0 < 0x1_0000_0000,
{
    let digits = if s.len() > 0 && s[0] == 43 {
        s.subrange(1, s.len() as int)
    } else {
        s
    };
    crate::hexnum::lemma_hex_seq_value_bound(digits);
    crate::hexnum::lemma_pow16_le(digits.len(), 8);
    assert(crate::hexnum::pow16(8) == 0x1_0000_0000) by {
        reveal_with_fuel(crate::hexnum::pow16, 9);
    }
}

/// Parses a CPIO entry header from the start of `cpio_data`. Succeeds on
/// exactly the inputs `spec_parse_cpio_header` accepts and returns exactly
/// the header it describes; malformed input is an error, never a panic.
pub fn parse_cpio_entry_header(cpio_data: &[u8]) -> (r: Result<CPIOEntryHeader, StructureError>)
    ensures
        r is Ok <==> spec_parse_cpio_header(cpio_data@) is Some,
        r matches Ok(h) ==> spec_parse_cpio_header(cpio_data@) == Some(h@),
{
    let available_data: usize = cpio_data.len();

    if available_data <= CPIO_HEADER_SIZE {
        return Err(StructureError);
    }
    if parse_hex_field(
        vstd::slice::slice_subrange(cpio_data, CPIO_MAGIC_START, CPIO_MAGIC_END),
    ).is_none() {
        return Err(StructureError);
    }
    let mode = match parse_hex_field(
        vstd::slice::slice_subrange(cpio_data, MODE_START, MODE_END),
    ) {
        Some(v) => v,
        None => {
            return Err(StructureError);
        },
    };
    let dev_major = match parse_hex_field(
        vstd::slice::slice_subrange(cpio_data, DEV_MAJOR_START, DEV_MAJOR_END),
    ) {
        Some(v) => v,
        None => {
            return Err(StructureError);
        },
    };
    let dev_minor = match parse_hex_field(
        vstd::slice::slice_subrange(cpio_data, DEV_MINOR_START, DEV_MINOR_END),
    ) {
        Some(v) => v,
        None => {
            return Err(StructureError);
        },
    };
    let file_data_size = match parse_hex_field(
        vstd::slice::slice_subrange(cpio_data, FILE_SIZE_START, FILE_SIZE_END),
    ) {
        Some(v) => v,
        None => {
            return Err(StructureError);
        },
    };
    let file_name_size = match parse_hex_field(
        vstd::slice::slice_subrange(cpio_data, FILE_NAME_SIZE_START, FILE_NAME_SIZE_END),
    ) {
        Some(v) => v,
        None => {
            return Err(StructureError);
        },
    };

    if file_name_size == 0 {
        return Err(StructureError);
    }
    if file_name_size - NULL_BYTE_SIZE > available_data - CPIO_HEADER_SIZE {
        return Err(StructureError);
    }
    let file_name_start: usize = CPIO_HEADER_SIZE;
    let file_name_end: usize = CPIO_HEADER_SIZE - NULL_BYTE_SIZE + file_name_size;
    let file_name_raw_bytes = vstd::slice::slice_to_vec(
        vstd::slice::slice_subrange(cpio_data, file_name_start, file_name_end),
    );
    let file_name = match string_from_utf8(file_name_raw_bytes) {
        Some(s) => s,
        None => {
            return Err(StructureError);
        },
    };

    let data_padding = byte_padding(file_data_size);
    if file_data_size > usize::MAX - data_padding {
        return Err(StructureError);
    }
    let data_size = file_data_size + data_padding;

    if file_name_size > usize::MAX - CPIO_HEADER_SIZE {
        return Err(StructureError);
    }
    let header_total_size = CPIO_HEADER_SIZE + file_name_size;
    let header_padding = byte_padding(header_total_size);
    if header_total_size > usize::MAX - header_padding {
        return Err(StructureError);
    }
    let header_size = header_total_size + header_padding;

    let header_magic = vstd::slice::slice_to_vec(
        vstd::slice::slice_subrange(cpio_data, CPIO_MAGIC_START, CPIO_MAGIC_END),
    );
    let file_type = parse_file_type(mode);

    Ok(
        CPIOEntryHeader {
            magic: header_magic,
            data_size,
            raw_data_size: file_data_size,
            file_name,
            header_size,
            mode,
            file_type,
            dev_major,
            dev_minor,
        },
    )
}

} // verus!

verus! {

/// Writes the 8-digit hexadecimal field for `value` at `pos`, leaving every
/// other byte unchanged.
fn write_hex_field(buf: &mut Vec<u8>, pos: usize, value: usize)
    requires
        pos + 8 <= old(buf)@.len(),
        value <= 0xffff_ffff,
    ensures
        final(buf)@.len() == old(buf)@.len(),
        spec_parse_hex_field(final(buf)@.subrange(pos as int, pos + 8)) == Some(value as nat),
        forall|j: int|
            0 <= j < old(buf)@.len() && !(pos <= j < pos + 8) ==> final(buf)@[j] == old(buf)@[j],
        forall|q: int|
            0 <= q && q + 8 <= old(buf)@.len() && (q + 8 <= pos || pos + 8 <= q)
                ==> #[trigger] final(buf)@.subrange(q, q + 8) == old(buf)@.subrange(q, q + 8),
{
    let digits = crate::hexnum::encode_hex_field(value);
    let buf_len = buf.len();
    let mut k: usize = 0;
    while k < 8
        invariant
            k <= 8,
            pos + 8 <= buf@.len(),
            buf@.len() == buf_len,
            buf@.len() == old(buf)@.len(),
            digits@.len() == 8,
            spec_parse_hex_field(digits@) == Some(value as nat),
            forall|j: int|
                0 <= j < buf@.len() && !(pos <= j < pos + k) ==> buf@[j] == old(buf)@[j],
            forall|j: int| 0 <= j < k ==> buf@[pos + j] == digits@[j],
        decreases 8 - k,
    {
        let d = *vstd::slice::slice_index_get(digits.as_slice(), k);
        buf.set(pos + k, d);
        k = k + 1;
    }
    proof {
        assert(buf@.subrange(pos as int, pos + 8) =~= digits@);
        assert forall|q: int|
            0 <= q && q + 8 <= old(buf)@.len() && (q + 8 <= pos || pos + 8 <= q) implies #[trigger]
        buf@.subrange(q, q + 8) == old(buf)@.subrange(q, q + 8) by {
            assert(buf@.subrange(q, q + 8) =~= old(buf)@.subrange(q, q + 8));
        }
    }
}

/// Encodes one CPIO entry header (the fixed fields, the NUL-terminated file
/// name, and the alignment padding) such that parsing it back yields exactly
/// the given mode, sizes and name; the derived header and data sizes of the
/// parsed header are multiples of 4 and the data size is the raw size plus
/// its alignment padding.
pub fn encode_cpio_entry_header(
    mode: usize,
    file_data_size: usize,
    file_name: &str,
    dev_major: usize,
    dev_minor: usize,
) -> (r: Vec<u8>)
    requires
        mode <= 0xffff_ffff,
        file_data_size <= 0xffff_ffff,
        dev_major <= 0xffff_ffff,
        dev_minor <= 0xffff_ffff,
        file_data_size + 3 <= usize::MAX,
        vstd::utf8::encode_utf8(file_name@).len() + 1 <= 0xffff_ffff,
        CPIO_HEADER_SIZE + vstd::utf8::encode_utf8(file_name@).len() + 4 <= usize::MAX,
    ensures
        spec_parse_cpio_header(r@) is Some,
        ({
            let h = spec_parse_cpio_header(r@)->0;
            &&& h.mode == mode
            &&& h.raw_data_size == file_data_size
            &&& h.data_size == file_data_size + spec_padding(file_data_size as int)
            &&& h.file_name == file_name@
            &&& h.file_type == spec_file_type(mode)
            &&& h.dev_major == dev_major
            &&& h.dev_minor == dev_minor
            &&& h.header_size == r@.len()
            &&& h.header_size % 4 == 0
            &&& h.data_size % 4 == 0
        }),
{
    proof {
        lemma_padding_aligns(file_data_size as int);
    }
    let mut name_bytes = file_name.as_bytes_vec();
    let name_size = name_bytes.len() + 1;
    let mut buf: Vec<u8> = Vec::new();
    let mut i: usize = 0;
    while i < CPIO_HEADER_SIZE
        invariant
            buf@.len() == i,
            i <= CPIO_HEADER_SIZE,
        decreases CPIO_HEADER_SIZE - i,
    {
        buf.push(48u8);
        i = i + 1;
    }
    buf.set(0, 48);
    buf.set(1, 55);
    buf.set(2, 48);
    buf.set(3, 55);
    buf.set(4, 48);
    buf.set(5, 49);
    write_hex_field(&mut buf, MODE_START, mode);
    write_hex_field(&mut buf, DEV_MAJOR_START, dev_major);
    write_hex_field(&mut buf, DEV_MINOR_START, dev_minor);
    write_hex_field(&mut buf, FILE_SIZE_START, file_data_size);
    write_hex_field(&mut buf, FILE_NAME_SIZE_START, name_size);
    let ghost fixed = buf@;
    proof {
        assert(spec_parse_hex_field(fixed.subrange(MODE_START as int, MODE_END as int)) == Some(
            mode as nat,
        ));
        assert(spec_parse_hex_field(fixed.subrange(DEV_MAJOR_START as int, DEV_MAJOR_END as int))
            == Some(dev_major as nat));
        assert(spec_parse_hex_field(fixed.subrange(DEV_MINOR_START as int, DEV_MINOR_END as int))
            == Some(dev_minor as nat));
        assert(spec_parse_hex_field(fixed.subrange(FILE_SIZE_START as int, FILE_SIZE_END as int))
            == Some(file_data_size as nat));
        assert(spec_parse_hex_field(
            fixed.subrange(FILE_NAME_SIZE_START as int, FILE_NAME_SIZE_END as int),
        ) == Some(name_size as nat));
    }
    buf.append(&mut name_bytes);
    buf.push(0u8);
    let header_total = CPIO_HEADER_SIZE + name_size;
    let pad = byte_padding(header_total);
    proof {
        assert(buf@.subrange(0, header_total as int) =~= fixed + vstd::utf8::encode_utf8(
            file_name@,
        ) + seq![0u8]);
    }
    let mut p: usize = 0;
    while p < pad
        invariant
            p <= pad <= 3,
            header_total + pad <= usize::MAX,
            buf@.len() == header_total + p,
            buf@.subrange(0, header_total as int) == fixed + vstd::utf8::encode_utf8(file_name@)
                + seq![0u8],
            fixed.len() == CPIO_HEADER_SIZE,
        decreases pad - p,
    {
        buf.push(0u8);
        proof {
            assert(buf@.subrange(0, header_total as int) =~= buf@.drop_last().subrange(
                0,
                header_total as int,
            ));
        }
        p = p + 1;
    }
    proof {
        let data = buf@;
        let nb = vstd::utf8::encode_utf8(file_name@);
        assert(data.subrange(0, header_total as int) == fixed + nb + seq![0u8]);
        assert(data.len() == header_total + pad);
        // each fixed field of the final buffer is the field that was written
        assert forall|j: int| 0 <= j < CPIO_HEADER_SIZE implies data[j] == fixed[j] by {
            assert(data.subrange(0, header_total as int)[j] == data[j]);
            assert((fixed + nb + seq![0u8])[j] == fixed[j]);
        }
        // the magic region holds the hexadecimal text the sets wrote
        let magic_field = data.subrange(CPIO_MAGIC_START as int, CPIO_MAGIC_END as int);
        assert(magic_field =~= seq![48u8, 55u8, 48u8, 55u8, 48u8, 49u8]);
        assert forall|j: int|
            0 <= j < magic_field.len() implies crate::hexnum::is_hex_digit(
            #[trigger] magic_field[j],
        ) by {
            assert(magic_field[0] == 48 && magic_field[1] == 55 && magic_field[2] == 48
                && magic_field[3] == 55 && magic_field[4] == 48 && magic_field[5] == 49);
        }
        assert(spec_parse_hex_field(magic_field) is Some);
        assert(data.subrange(MODE_START as int, MODE_END as int) =~= fixed.subrange(
            MODE_START as int,
            MODE_END as int,
        ));
        assert(data.subrange(DEV_MAJOR_START as int, DEV_MAJOR_END as int) =~= fixed.subrange(
            DEV_MAJOR_START as int,
            DEV_MAJOR_END as int,
        ));
        assert(data.subrange(DEV_MINOR_START as int, DEV_MINOR_END as int) =~= fixed.subrange(
            DEV_MINOR_START as int,
            DEV_MINOR_END as int,
        ));
        assert(data.subrange(FILE_SIZE_START as int, FILE_SIZE_END as int) =~= fixed.subrange(
            FILE_SIZE_START as int,
            FILE_SIZE_END as int,
        ));
        assert(data.subrange(FILE_NAME_SIZE_START as int, FILE_NAME_SIZE_END as int)
            =~= fixed.subrange(FILE_NAME_SIZE_START as int, FILE_NAME_SIZE_END as int));
        // the name region is exactly the UTF-8 encoding of the name
        assert forall|j: int|
            CPIO_HEADER_SIZE <= j < CPIO_HEADER_SIZE + name_size - 1 implies data[j] == nb[j
            - CPIO_HEADER_SIZE] by {
            assert(data.subrange(0, header_total as int)[j] == data[j]);
            assert((fixed + nb + seq![0u8])[j] == nb[j - CPIO_HEADER_SIZE]);
        }
        assert(data.subrange(CPIO_HEADER_SIZE as int, CPIO_HEADER_SIZE + name_size - 1) =~= nb);
        vstd::utf8::encode_utf8_valid_utf8(file_name@);
        vstd::utf8::encode_utf8_decode_utf8(file_name@);
        lemma_padding_aligns(header_total as int);
    }
    buf
}

} // verus!

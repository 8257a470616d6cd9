//! Utilities for writing and reading SMX files.

use vstd::prelude::*;

use crate::endian::{
    Endianness, u16_bytes, u32_bytes, u16_of_bytes, u32_of_bytes, put_u16, put_u32,
    lemma_u16_roundtrip, lemma_u32_roundtrip,
};
use crate::smx_table::{
    CStrTable, spec_insert, nul_free, has_entry, entry_at, terminated,
    lemma_insert_lookup, lemma_has_entry_append, lemma_entry_at_of_has_entry,
};
use crate::zlib::{CompressionLevel, zlib_deflate, zlib_inflate, deflate_zlib};
use vstd::string::StringExecFns;

verus! {

/// SMX file magic number.
pub const FILE_MAGIC: u32 = 0x53504646;

/// Targetting SourcePawn 1.2.
pub const TARGET_VERSION: u16 = 0x102;

/// Byte length of the fixed file header.
pub const SMX_HEADER_LEN: usize = 24;

/// Byte length of one section-info record.
pub const SMX_SECTION_INFO_LEN: usize = 12;

/// Structure for an error that has occurred while reading an SMX file.
#[derive(Debug, Clone, Copy, PartialEq, Eq)]
pub enum SmxError {
    /// The input ended before a read that the header or a section-info
    /// record asked for could be served.
    Truncated,
    /// Invalid SMX magic number.
    Magic([u8; 4]),
    /// Unsupported SMX version.
    Version(u16),
    /// Unsupported SMX compression.
    Compression(u8),
    /// SMX data decompression error.
    Decompress,
    /// Compressed SMX data was not at the size indicated in the header.
    NotAtDiskSize(usize),
    /// Uncompressed SMX data was not at the size indicated in the header.
    NotAtImageSize {
        declared: u32,
        actual: u64,
    },
    /// A section's offset into the SMX file's string table was invalid.
    SectionNameOffset {
        section: u8,
        name_offset: u32,
        string_table_size: usize,
    },
}

/// The lower-case hex digit of a value below 16.
pub open spec fn hex_digit(v: int) -> Seq<char> {
    if v == 0 {
        "0"@
    } else if v == 1 {
        "1"@
    } else if v == 2 {
        "2"@
    } else if v == 3 {
        "3"@
    } else if v == 4 {
        "4"@
    } else if v == 5 {
        "5"@
    } else if v == 6 {
        "6"@
    } else if v == 7 {
        "7"@
    } else if v == 8 {
        "8"@
    } else if v == 9 {
        "9"@
    } else if v == 10 {
        "a"@
    } else if v == 11 {
        "b"@
    } else if v == 12 {
        "c"@
    } else if v == 13 {
        "d"@
    } else if v == 14 {
        "e"@
    } else {
        "f"@
    }
}

/// The lower-case hex digits of `v`, zero-padded to at least `width`.
pub open spec fn hex_min(v: int, width: nat) -> Seq<char>
    recommends
        0 <= v,
    decreases v, width,
    when 0 <= v
{
    if width <= 1 && v < 16 {
        hex_digit(v)
    } else {
        hex_min(
            v / 16,
            if width == 0 {
                0
            } else {
                (width - 1) as nat
            },
        ) + hex_digit(v % 16)
    }
}

/// The decimal digits of `v`.
pub open spec fn dec_seq(v: int) -> Seq<char>
    recommends
        0 <= v,
    decreases v,
    when 0 <= v
{
    if v < 10 {
        hex_digit(v)
    } else {
        dec_seq(v / 10) + hex_digit(v % 10)
    }
}

/// Append the lower-case hex digit of a value below 16.
fn append_hex_digit(out: &mut String, d: u64)
    requires
        d < 16,
    ensures
        final(out)@ == old(out)@ + hex_digit(d as int),
{
    if d == 0 {
        out.append("0");
    } else if d == 1 {
        out.append("1");
    } else if d == 2 {
        out.append("2");
    } else if d == 3 {
        out.append("3");
    } else if d == 4 {
        out.append("4");
    } else if d == 5 {
        out.append("5");
    } else if d == 6 {
        out.append("6");
    } else if d == 7 {
        out.append("7");
    } else if d == 8 {
        out.append("8");
    } else if d == 9 {
        out.append("9");
    } else if d == 10 {
        out.append("a");
    } else if d == 11 {
        out.append("b");
    } else if d == 12 {
        out.append("c");
    } else if d == 13 {
        out.append("d");
    } else if d == 14 {
        out.append("e");
    } else {
        out.append("f");
    }
}

/// Append the lower-case hex digits of `v`, zero-padded to at least
/// `width`.
fn append_hex_min(out: &mut String, v: u64, width: usize)
    ensures
        final(out)@ == old(out)@ + hex_min(v as int, width as nat),
    decreases v, width,
{
    if width <= 1 && v < 16 {
        append_hex_digit(out, v);
    } else {
        let next_width = if width == 0 {
            0
        } else {
            width - 1
        };
        append_hex_min(out, v / 16, next_width);
        append_hex_digit(out, v % 16);
        proof {
            assert(old(out)@ + hex_min(v as int / 16, next_width as nat) + hex_digit(v as int % 16)
                =~= old(out)@ + hex_min(v as int, width as nat));
        }
    }
}

/// Append the decimal digits of `v`.
fn append_dec(out: &mut String, v: u64)
    ensures
        final(out)@ == old(out)@ + dec_seq(v as int),
    decreases v,
{
    if v < 10 {
        append_hex_digit(out, v);
    } else {
        append_dec(out, v / 10);
        append_hex_digit(out, v % 10);
        proof {
            assert(old(out)@ + dec_seq(v as int / 10) + hex_digit(v as int % 10) =~= old(out)@
                + dec_seq(v as int));
        }
    }
}

impl SmxError {
    /// The diagnostic line this error renders to.
    pub open spec fn spec_message(self) -> Seq<char> {
        match self {
            SmxError::Truncated => "file ended inside a required field"@,
            SmxError::Magic(m) => "wrong magic number: "@ + hex_min(m@[0] as int, 2) + " "@
                + hex_min(m@[1] as int, 2) + " "@ + hex_min(m@[2] as int, 2) + " "@ + hex_min(
                m@[3] as int,
                2,
            ),
            SmxError::Version(version) => "unsupported version: 0x"@ + hex_min(version as int, 4),
            SmxError::Compression(byte) => "unsupported compression type: 0x"@ + hex_min(
                byte as int,
                2,
            ),
            SmxError::Decompress => "decompression error"@,
            SmxError::NotAtDiskSize(size) => "compressed payload is not at disk size 0x"@
                + hex_min(size as int, 8),
            SmxError::NotAtImageSize { declared, actual } =>
                "whole file is not at declared image size (declared 0x"@ + hex_min(
                declared as int,
                8,
            ) + ", actual 0x"@ + hex_min(actual as int, 8) + ")"@,
            SmxError::SectionNameOffset { section, name_offset, string_table_size } => "section #"@
                + dec_seq(section as int) + " has invalid offset 0x"@ + hex_min(
                name_offset as int,
                4,
            ) + " into string table of size 0x"@ + hex_min(string_table_size as int, 4),
        }
    }

    /// Render the diagnostic line for this error.
    pub fn message(&self) -> (r: String)
        ensures
            r@ == self.spec_message(),
    {
        let mut out = String::new();
        match self {
            SmxError::Truncated => {
                out.append("file ended inside a required field");
            },
            SmxError::Magic(m) => {
                out.append("wrong magic number: ");
                append_hex_min(&mut out, m[0] as u64, 2);
                out.append(" ");
                append_hex_min(&mut out, m[1] as u64, 2);
                out.append(" ");
                append_hex_min(&mut out, m[2] as u64, 2);
                out.append(" ");
                append_hex_min(&mut out, m[3] as u64, 2);
            },
            SmxError::Version(version) => {
                out.append("unsupported version: 0x");
                append_hex_min(&mut out, *version as u64, 4);
            },
            SmxError::Compression(byte) => {
                out.append("unsupported compression type: 0x");
                append_hex_min(&mut out, *byte as u64, 2);
            },
            SmxError::Decompress => {
                out.append("decompression error");
            },
            SmxError::NotAtDiskSize(size) => {
                out.append("compressed payload is not at disk size 0x");
                append_hex_min(&mut out, *size as u64, 8);
            },
            SmxError::NotAtImageSize { declared, actual } => {
                out.append("whole file is not at declared image size (declared 0x");
                append_hex_min(&mut out, *declared as u64, 8);
                out.append(", actual 0x");
                append_hex_min(&mut out, *actual, 8);
                out.append(")");
            },
            SmxError::SectionNameOffset { section, name_offset, string_table_size } => {
                out.append("section #");
                append_dec(&mut out, *section as u64);
                out.append(" has invalid offset 0x");
                append_hex_min(&mut out, *name_offset as u64, 4);
                out.append(" into string table of size 0x");
                append_hex_min(&mut out, *string_table_size as u64, 4);
            },
        }
        proof {
            assert(out@ =~= self.spec_message());
        }
        out
    }
}

/// The mathematical value of a list of owned sections: each pair as the
/// name bytes and the data bytes.
pub open spec fn sections_view(s: Seq<(Vec<u8>, Vec<u8>)>) -> Seq<(Seq<u8>, Seq<u8>)> {
    Seq::new(s.len(), |i: int| (s[i].0@, s[i].1@))
}

/// Every section name is free of null bytes.
pub open spec fn names_ok(s: Seq<(Seq<u8>, Seq<u8>)>) -> bool {
    forall|i: int| 0 <= i < s.len() ==> nul_free(#[trigger] s[i].0)
}

/// No two sections share a name.
pub open spec fn names_unique(s: Seq<(Seq<u8>, Seq<u8>)>) -> bool {
    forall|i: int, j: int| 0 <= i < j < s.len() ==> (#[trigger] s[i].0) != (#[trigger] s[j].0)
}

/// The string-table blob after the first `n` section names are inserted.
pub open spec fn table_blob(s: Seq<(Seq<u8>, Seq<u8>)>, n: int) -> Seq<u8>
    decreases n,
{
    if n <= 0 {
        Seq::empty()
    } else {
        spec_insert(table_blob(s, n - 1), s[n - 1].0).0
    }
}

/// The string-table offset that inserting section `i`'s name hands back.
pub open spec fn name_offset(s: Seq<(Seq<u8>, Seq<u8>)>, i: int) -> int {
    spec_insert(table_blob(s, i), s[i].0).1
}

/// The concatenated data bytes of the first `n` sections.
pub open spec fn payload(s: Seq<(Seq<u8>, Seq<u8>)>, n: int) -> Seq<u8>
    decreases n,
{
    if n <= 0 {
        Seq::empty()
    } else {
        payload(s, n - 1) + s[n - 1].1
    }
}

/// Absolute file offset of the string table.
pub open spec fn string_table_offset(s: Seq<(Seq<u8>, Seq<u8>)>) -> int {
    (SMX_HEADER_LEN as int) + (SMX_SECTION_INFO_LEN as int) * (s.len() as int)
}

/// Absolute file offset of the payload; also where the string table ends.
pub open spec fn payload_offset(s: Seq<(Seq<u8>, Seq<u8>)>) -> int {
    string_table_offset(s) + table_blob(s, s.len() as int).len()
}

/// Total logical length of the file once the payload is decompressed.
pub open spec fn image_size(s: Seq<(Seq<u8>, Seq<u8>)>) -> int {
    payload_offset(s) + payload(s, s.len() as int).len()
}

/// The 24 header bytes of a file that stores these sections with a stored
/// payload of `stored_len` bytes.
pub open spec fn header_bytes(
    s: Seq<(Seq<u8>, Seq<u8>)>,
    e: Endianness,
    comp: bool,
    stored_len: int,
) -> Seq<u8> {
    u32_bytes(e, FILE_MAGIC) + u16_bytes(e, TARGET_VERSION) + seq![
        if comp {
            1u8
        } else {
            0u8
        },
    ] + u32_bytes(e, (payload_offset(s) + stored_len) as u32) + u32_bytes(
        e,
        image_size(s) as u32,
    ) + seq![s.len() as u8] + u32_bytes(e, string_table_offset(s) as u32) + u32_bytes(
        e,
        payload_offset(s) as u32,
    )
}

/// The 12 bytes of section `i`'s info record.
pub open spec fn info_record(s: Seq<(Seq<u8>, Seq<u8>)>, e: Endianness, i: int) -> Seq<u8> {
    u32_bytes(e, name_offset(s, i) as u32) + u32_bytes(
        e,
        (payload_offset(s) + payload(s, i).len()) as u32,
    ) + u32_bytes(e, s[i].1.len() as u32)
}

/// The info records of the first `n` sections, in order.
pub open spec fn info_records(s: Seq<(Seq<u8>, Seq<u8>)>, e: Endianness, n: int) -> Seq<u8>
    decreases n,
{
    if n <= 0 {
        Seq::empty()
    } else {
        info_records(s, e, n - 1) + info_record(s, e, n - 1)
    }
}

/// The whole file that stores these sections, with the stored payload
/// bytes given explicitly.
pub open spec fn file_bytes(
    s: Seq<(Seq<u8>, Seq<u8>)>,
    e: Endianness,
    comp: bool,
    stored: Seq<u8>,
) -> Seq<u8> {
    header_bytes(s, e, comp, stored.len() as int) + info_records(s, e, s.len() as int)
        + table_blob(s, s.len() as int) + stored
}

/// The file that writing these sections at this level produces.
pub open spec fn spec_write(
    s: Seq<(Seq<u8>, Seq<u8>)>,
    e: Endianness,
    level: CompressionLevel,
) -> Seq<u8> {
    if level == CompressionLevel::NoCompression {
        file_bytes(s, e, false, payload(s, s.len() as int))
    } else {
        file_bytes(s, e, true, zlib_deflate(payload(s, s.len() as int), level.spec_level()))
    }
}

/// Whether position `p` of the transparent stream can be read: positions
/// before the payload offset come from the raw file, later ones from the
/// decompressed buffer when there is one.
pub open spec fn log_in_range(file: Seq<u8>, infl: Seq<u8>, d_off: int, p: int) -> bool {
    if p < d_off {
        p < file.len()
    } else {
        p - d_off < infl.len()
    }
}

/// Whether every position of an `n`-byte range at `pos` of the
/// transparent stream is readable.
pub open spec fn log_range_ok(file: Seq<u8>, infl: Seq<u8>, d_off: int, pos: int, n: int) -> bool {
    forall|p: int| pos <= p < pos + n ==> #[trigger] log_in_range(file, infl, d_off, p)
}

/// Whether a read of `n` bytes at `pos` from the transparent stream can
/// be served whole, given the decompressed payload, or nothing when the
/// stream passes straight through to the file.
pub open spec fn log_read_ok(
    file: Seq<u8>,
    data: Option<Seq<u8>>,
    d_off: int,
    pos: int,
    n: int,
) -> bool {
    match data {
        Option::None => n == 0 || pos + n <= file.len(),
        Option::Some(infl) => log_range_ok(file, infl, d_off, pos, n),
    }
}

/// The byte at position `p` of the transparent stream.
pub open spec fn log_byte(file: Seq<u8>, data: Option<Seq<u8>>, d_off: int, p: int) -> u8 {
    match data {
        Option::None => file[p],
        Option::Some(infl) => if p < d_off {
            file[p]
        } else {
            infl[p - d_off]
        },
    }
}

/// The `n` bytes at `pos` of the transparent stream.
pub open spec fn log_read(
    file: Seq<u8>,
    data: Option<Seq<u8>>,
    d_off: int,
    pos: int,
    n: int,
) -> Seq<u8>
    recommends
        n >= 0,
{
    Seq::new(n as nat, |k: int| log_byte(file, data, d_off, pos + k))
}

/// The total length of the transparent stream: the file itself, or the
/// prefix up to the payload offset followed by the decompressed payload.
pub open spec fn log_len(file: Seq<u8>, data: Option<Seq<u8>>, d_off: int) -> int {
    match data {
        Option::None => file.len() as int,
        Option::Some(infl) => d_off + infl.len(),
    }
}

/// The fixed-size header fields of one file, as decoded in its byte order.
#[derive(Debug, Clone, Copy, PartialEq, Eq, Structural)]
pub struct SmxHeader {
    /// Compression flag byte was 1.
    pub compressed: bool,
    /// Total file length as stored.
    pub disk_size: u32,
    /// Total logical length after decompression.
    pub image_size: u32,
    /// Number of section-info records.
    pub n_sections: u8,
    /// Absolute offset of the string table.
    pub string_table_offset: u32,
    /// Absolute offset of the payload; also where the string table ends.
    pub payload_offset: u32,
}

/// The outcome of matching the first four bytes against both byte orders
/// of the magic number.
pub open spec fn spec_magic(file: Seq<u8>) -> Result<Endianness, SmxError> {
    if file.len() < 4 {
        Err(SmxError::Truncated)
    } else if u32_of_bytes(Endianness::Little, file.subrange(0, 4)) == FILE_MAGIC {
        Ok(Endianness::Little)
    } else if u32_of_bytes(Endianness::Big, file.subrange(0, 4)) == FILE_MAGIC {
        Ok(Endianness::Big)
    } else {
        Err(SmxError::Magic([file[0], file[1], file[2], file[3]]))
    }
}

/// The header fields of `file` decoded in order `e`, or the first header
/// error: a short file, a version other than the target, or a compression
/// flag other than 0 or 1.
pub open spec fn spec_parse_header(file: Seq<u8>, e: Endianness) -> Result<SmxHeader, SmxError> {
    if file.len() < 6 {
        Err(SmxError::Truncated)
    } else if u16_of_bytes(e, file.subrange(4, 6)) != TARGET_VERSION {
        Err(SmxError::Version(u16_of_bytes(e, file.subrange(4, 6))))
    } else if file.len() < 7 {
        Err(SmxError::Truncated)
    } else if file[6] != 0 && file[6] != 1 {
        Err(SmxError::Compression(file[6]))
    } else if file.len() < 24 {
        Err(SmxError::Truncated)
    } else {
        Ok(
            SmxHeader {
                compressed: file[6] == 1,
                disk_size: u32_of_bytes(e, file.subrange(7, 11)),
                image_size: u32_of_bytes(e, file.subrange(11, 15)),
                n_sections: file[15],
                string_table_offset: u32_of_bytes(e, file.subrange(16, 20)),
                payload_offset: u32_of_bytes(e, file.subrange(20, 24)),
            },
        )
    }
}

/// The string-table blob of `file`: the bytes between the two offsets the
/// header declares, or a truncation error when that range cannot be read.
pub open spec fn spec_table(file: Seq<u8>, h: SmxHeader) -> Result<Seq<u8>, SmxError> {
    if h.string_table_offset > h.payload_offset {
        Err(SmxError::Truncated)
    } else if h.string_table_offset == h.payload_offset {
        Ok(Seq::empty())
    } else if h.payload_offset > file.len() {
        Err(SmxError::Truncated)
    } else {
        Ok(file.subrange(h.string_table_offset as int, h.payload_offset as int))
    }
}

/// The decompressed payload of a compressed file, nothing for a plain one,
/// or the first payload error: a stored tail whose length is not what the
/// disk-size field promises, or a corrupt zlib stream.
pub open spec fn spec_payload(file: Seq<u8>, h: SmxHeader) -> Result<Option<Seq<u8>>, SmxError> {
    if !h.compressed {
        Ok(Option::None)
    } else {
        let compressed = if h.payload_offset <= file.len() {
            file.subrange(h.payload_offset as int, file.len() as int)
        } else {
            Seq::empty()
        };
        if compressed.len() != h.disk_size - h.payload_offset {
            Err(SmxError::NotAtDiskSize(compressed.len() as usize))
        } else {
            match zlib_inflate(compressed) {
                Option::None => Err(SmxError::Decompress),
                Option::Some(infl) => Ok(Option::Some(infl)),
            }
        }
    }
}

/// The length of the transparent stream, reduced to the 64 bits the
/// image-size comparison and its error report carry.
pub open spec fn spec_actual_len(file: Seq<u8>, data: Option<Seq<u8>>, d_off: int) -> u64 {
    (log_len(file, data, d_off) % 0x1_0000_0000_0000_0000) as u64
}

/// The `(name, data)` pairs that the records `i .. n` of the section-info
/// table resolve to, in table order, with the first error if one stops the
/// scan.  Pairs before the error are still delivered to the sink.
pub open spec fn spec_sections(
    file: Seq<u8>,
    data: Option<Seq<u8>>,
    d_off: int,
    tbl: Seq<u8>,
    e: Endianness,
    n: int,
    i: int,
) -> (Seq<(Seq<u8>, Seq<u8>)>, Option<SmxError>)
    decreases n - i,
{
    if i >= n {
        (Seq::empty(), Option::None)
    } else {
        let rec_pos = (SMX_HEADER_LEN as int) + (SMX_SECTION_INFO_LEN as int) * i;
        if !log_read_ok(file, data, d_off, rec_pos, 4) {
            (Seq::empty(), Option::Some(SmxError::Truncated))
        } else {
            let name_off = u32_of_bytes(e, log_read(file, data, d_off, rec_pos, 4));
            if name_off >= tbl.len() {
                (
                    Seq::empty(),
                    Option::Some(
                        SmxError::SectionNameOffset {
                            section: i as u8,
                            name_offset: name_off,
                            string_table_size: tbl.len() as usize,
                        },
                    ),
                )
            } else if !log_read_ok(file, data, d_off, rec_pos + 4, 8) {
                (Seq::empty(), Option::Some(SmxError::Truncated))
            } else {
                let sec_off = u32_of_bytes(e, log_read(file, data, d_off, rec_pos + 4, 4));
                let sec_len = u32_of_bytes(e, log_read(file, data, d_off, rec_pos + 8, 4));
                let name = entry_at(tbl, name_off as int);
                if !log_read_ok(file, data, d_off, sec_off as int, sec_len as int) {
                    (Seq::empty(), Option::Some(SmxError::Truncated))
                } else {
                    let bytes = log_read(file, data, d_off, sec_off as int, sec_len as int);
                    let rest = spec_sections(file, data, d_off, tbl, e, n, i + 1);
                    (seq![(name, bytes)] + rest.0, rest.1)
                }
            }
        }
    }
}

/// What reading `file` without its magic bytes, in order `e`, delivers:
/// the sections in section-info order, or the first error.
pub open spec fn spec_read_no_magic(file: Seq<u8>, e: Endianness) -> Result<
    (Seq<(Seq<u8>, Seq<u8>)>, Endianness),
    SmxError,
> {
    match spec_parse_header(file, e) {
        Err(er) => Err(er),
        Ok(h) => match spec_table(file, h) {
            Err(er) => Err(er),
            Ok(tbl) => match spec_payload(file, h) {
                Err(er) => Err(er),
                Ok(data) => {
                    if spec_actual_len(file, data, h.payload_offset as int) != h.image_size as u64 {
                        Err(
                            SmxError::NotAtImageSize {
                                declared: h.image_size,
                                actual: spec_actual_len(file, data, h.payload_offset as int),
                            },
                        )
                    } else {
                        let (pairs, er) = spec_sections(
                            file,
                            data,
                            h.payload_offset as int,
                            tbl,
                            e,
                            h.n_sections as int,
                            0,
                        );
                        match er {
                            Option::Some(er) => Err(er),
                            Option::None => Ok((pairs, e)),
                        }
                    }
                },
            },
        },
    }
}

/// What reading `file` delivers: its byte order, and the sections in
/// section-info order, or the first error.
pub open spec fn spec_read(file: Seq<u8>) -> Result<
    (Seq<(Seq<u8>, Seq<u8>)>, Endianness),
    SmxError,
> {
    match spec_magic(file) {
        Err(er) => Err(er),
        Ok(e) => spec_read_no_magic(file, e),
    }
}

/// The `(name, data)` pairs handed to the sink before reading `file` in
/// order `e` succeeded or stopped: all of them on success, a prefix when a
/// record fails, none when the header does.
pub open spec fn spec_delivered_no_magic(file: Seq<u8>, e: Endianness) -> Seq<(Seq<u8>, Seq<u8>)> {
    match spec_parse_header(file, e) {
        Err(_) => Seq::empty(),
        Ok(h) => match spec_table(file, h) {
            Err(_) => Seq::empty(),
            Ok(tbl) => match spec_payload(file, h) {
                Err(_) => Seq::empty(),
                Ok(data) => {
                    if spec_actual_len(file, data, h.payload_offset as int) != h.image_size as u64 {
                        Seq::empty()
                    } else {
                        spec_sections(
                            file,
                            data,
                            h.payload_offset as int,
                            tbl,
                            e,
                            h.n_sections as int,
                            0,
                        ).0
                    }
                },
            },
        },
    }
}

/// The `(name, data)` pairs handed to the sink before reading `file`
/// succeeded or stopped.
pub open spec fn spec_delivered(file: Seq<u8>) -> Seq<(Seq<u8>, Seq<u8>)> {
    match spec_magic(file) {
        Err(_) => Seq::empty(),
        Ok(e) => spec_delivered_no_magic(file, e),
    }
}

/// The info records of `n` sections take `12 * n` bytes.
pub proof fn lemma_info_records_len(s: Seq<(Seq<u8>, Seq<u8>)>, e: Endianness, n: int)
    requires
        0 <= n,
    ensures
        info_records(s, e, n).len() == 12 * n,
    decreases n,
{
    if n > 0 {
        lemma_info_records_len(s, e, n - 1);
        assert(info_record(s, e, n - 1).len() == 12);
    }
}

/// Record `i` sits at byte offset `12 * i` of the info records.
pub proof fn lemma_info_records_index(s: Seq<(Seq<u8>, Seq<u8>)>, e: Endianness, n: int, i: int)
    requires
        0 <= i < n,
    ensures
        info_records(s, e, n).subrange(12 * i, 12 * i + 12) == info_record(s, e, i),
    decreases n,
{
    lemma_info_records_len(s, e, n);
    lemma_info_records_len(s, e, n - 1);
    assert(info_record(s, e, n - 1).len() == 12);
    if i == n - 1 {
        assert(info_records(s, e, n).subrange(12 * i, 12 * i + 12) =~= info_record(s, e, i));
    } else {
        lemma_info_records_index(s, e, n - 1, i);
        assert(info_records(s, e, n).subrange(12 * i, 12 * i + 12) =~= info_records(
            s,
            e,
            n - 1,
        ).subrange(12 * i, 12 * i + 12));
    }
}

/// Where each field and region of a written file sits.
#[verifier::spinoff_prover]
#[verifier::rlimit(100)]
pub proof fn lemma_file_layout(
    s: Seq<(Seq<u8>, Seq<u8>)>,
    e: Endianness,
    comp: bool,
    stored: Seq<u8>,
)
    ensures
        ({
            let file = file_bytes(s, e, comp, stored);
            &&& file.len() == payload_offset(s) + stored.len()
            &&& file.subrange(0, 4) == u32_bytes(e, FILE_MAGIC)
            &&& file.subrange(4, 6) == u16_bytes(e, TARGET_VERSION)
            &&& file[6] == (if comp {
                1u8
            } else {
                0u8
            })
            &&& file.subrange(7, 11) == u32_bytes(e, (payload_offset(s) + stored.len()) as u32)
            &&& file.subrange(11, 15) == u32_bytes(e, image_size(s) as u32)
            &&& file[15] == s.len() as u8
            &&& file.subrange(16, 20) == u32_bytes(e, string_table_offset(s) as u32)
            &&& file.subrange(20, 24) == u32_bytes(e, payload_offset(s) as u32)
            &&& forall|i: int|
                0 <= i < s.len() ==> file.subrange(24 + 12 * i, 24 + 12 * i + 12)
                    == info_record(s, e, i)
            &&& file.subrange(string_table_offset(s), payload_offset(s)) == table_blob(
                s,
                s.len() as int,
            )
            &&& file.subrange(payload_offset(s), file.len() as int) == stored
        }),
{
    let file = file_bytes(s, e, comp, stored);
    let hdr = header_bytes(s, e, comp, stored.len() as int);
    let recs = info_records(s, e, s.len() as int);
    let tbl = table_blob(s, s.len() as int);
    let n = s.len() as int;
    lemma_info_records_len(s, e, n);
    assert(hdr.len() == 24);
    assert(file.len() == payload_offset(s) + stored.len());
    assert(file.subrange(0, 24) =~= hdr);
    assert(hdr.subrange(0, 4) =~= u32_bytes(e, FILE_MAGIC));
    assert(file.subrange(0, 4) =~= hdr.subrange(0, 4));
    assert(hdr.subrange(4, 6) =~= u16_bytes(e, TARGET_VERSION));
    assert(file.subrange(4, 6) =~= hdr.subrange(4, 6));
    assert(file[6] == hdr[6] && hdr[6] == (if comp {
        1u8
    } else {
        0u8
    }));
    assert(hdr.subrange(7, 11) =~= u32_bytes(e, (payload_offset(s) + stored.len()) as u32));
    assert(file.subrange(7, 11) =~= hdr.subrange(7, 11));
    assert(hdr.subrange(11, 15) =~= u32_bytes(e, image_size(s) as u32));
    assert(file.subrange(11, 15) =~= hdr.subrange(11, 15));
    assert(file[15] == hdr[15] && hdr[15] == s.len() as u8);
    assert(hdr.subrange(16, 20) =~= u32_bytes(e, string_table_offset(s) as u32));
    assert(file.subrange(16, 20) =~= hdr.subrange(16, 20));
    assert(hdr.subrange(20, 24) =~= u32_bytes(e, payload_offset(s) as u32));
    assert(file.subrange(20, 24) =~= hdr.subrange(20, 24));
    assert forall|i: int| 0 <= i < s.len() implies file.subrange(24 + 12 * i, 24 + 12 * i + 12)
        == info_record(s, e, i) by {
        lemma_info_records_index(s, e, n, i);
        assert(file.subrange(24 + 12 * i, 24 + 12 * i + 12) =~= recs.subrange(
            12 * i,
            12 * i + 12,
        ));
    }
    assert(file.subrange(string_table_offset(s), payload_offset(s)) =~= tbl);
    assert(file.subrange(payload_offset(s), file.len() as int) =~= stored);
}

/// Growing the insert count only appends bytes to the table blob.
pub proof fn lemma_table_blob_prefix(s: Seq<(Seq<u8>, Seq<u8>)>, m: int, n: int)
    requires
        m <= n,
    ensures
        table_blob(s, m).is_prefix_of(table_blob(s, n)),
    decreases n - m,
{
    if m < n {
        lemma_table_blob_prefix(s, m, n - 1);
        match crate::smx_table::find_dup(table_blob(s, n - 1), 0, s[n - 1].0) {
            Some(_) => {
                assert(table_blob(s, n) == table_blob(s, n - 1));
            }
            None => {
                assert(table_blob(s, n - 1).is_prefix_of(table_blob(s, n)));
            }
        }
    }
}

/// Every table blob that inserts build ends on a null terminator.
pub proof fn lemma_table_blob_terminated(s: Seq<(Seq<u8>, Seq<u8>)>, n: int)
    ensures
        terminated(table_blob(s, n)),
    decreases n,
{
    if n > 0 {
        lemma_table_blob_terminated(s, n - 1);
        match crate::smx_table::find_dup(table_blob(s, n - 1), 0, s[n - 1].0) {
            Some(_) => {}
            None => {
                assert(table_blob(s, n).last() == 0);
            }
        }
    }
}

/// Section `i`'s name sits null-terminated in every table blob that has
/// seen at least the first `i + 1` names.
pub proof fn lemma_name_has_entry(s: Seq<(Seq<u8>, Seq<u8>)>, i: int, n: int)
    requires
        0 <= i < n,
        nul_free(s[i].0),
    ensures
        has_entry(table_blob(s, n), name_offset(s, i), s[i].0),
    decreases n,
{
    lemma_table_blob_terminated(s, i);
    if n == i + 1 {
        lemma_insert_lookup(table_blob(s, i), s[i].0);
    } else {
        lemma_name_has_entry(s, i, n - 1);
        lemma_table_blob_prefix(s, n - 1, n);
        let b1 = table_blob(s, n - 1);
        let b2 = table_blob(s, n);
        assert(b2 =~= b1 + b2.skip(b1.len() as int));
        lemma_has_entry_append(b1, b2.skip(b1.len() as int), name_offset(s, i), s[i].0);
    }
}

/// Growing the section count only appends bytes to the payload.
pub proof fn lemma_payload_prefix(s: Seq<(Seq<u8>, Seq<u8>)>, m: int, n: int)
    requires
        m <= n,
    ensures
        payload(s, m).is_prefix_of(payload(s, n)),
    decreases n - m,
{
    if m < n {
        lemma_payload_prefix(s, m, n - 1);
        assert(payload(s, n - 1).is_prefix_of(payload(s, n)));
    }
}

/// Section `i`'s data reads back out of the full payload at its own
/// offset.
pub proof fn lemma_payload_slice(s: Seq<(Seq<u8>, Seq<u8>)>, i: int, n: int)
    requires
        0 <= i < n,
    ensures
        payload(s, i).len() + s[i].1.len() <= payload(s, n).len(),
        payload(s, n).subrange(
            payload(s, i).len() as int,
            payload(s, i).len() + s[i].1.len() as int,
        ) == s[i].1,
{
    lemma_payload_prefix(s, i + 1, n);
    let p1 = payload(s, i + 1);
    let pn = payload(s, n);
    let base = payload(s, i).len() as int;
    assert(p1 == payload(s, i) + s[i].1);
    assert(p1 == pn.subrange(0, p1.len() as int));
    assert forall|k: int| 0 <= k < s[i].1.len() implies pn[base + k] == s[i].1[k] by {
        assert(pn.subrange(0, p1.len() as int)[base + k] == pn[base + k]);
        assert(p1[base + k] == s[i].1[k]);
    }
    assert(pn.subrange(base, base + s[i].1.len() as int) =~= s[i].1);
}

/// A read that stays inside the uncompressed prefix is served whole from
/// the raw file, whether or not a decompressed buffer is present.
proof fn lemma_log_read_prefix(file: Seq<u8>, dv: Option<Seq<u8>>, d_off: int, pos: int, k: int)
    requires
        0 <= pos,
        0 <= k,
        pos + k <= d_off,
        d_off <= file.len(),
    ensures
        log_read_ok(file, dv, d_off, pos, k),
        log_read(file, dv, d_off, pos, k) == file.subrange(pos, pos + k),
{
    match dv {
        Option::None => {},
        Option::Some(infl) => {
            assert forall|p: int| pos <= p < pos + k implies log_in_range(file, infl, d_off, p) by {}
        },
    }
    assert(log_read(file, dv, d_off, pos, k) =~= file.subrange(pos, pos + k));
}

/// A read that stays inside the payload region is served whole from the
/// logical payload, whether it is a decompressed buffer or the stored tail
/// of the raw file.
proof fn lemma_log_read_payload(
    file: Seq<u8>,
    dv: Option<Seq<u8>>,
    pl: Seq<u8>,
    d_off: int,
    pos: int,
    k: int,
)
    requires
        0 <= d_off <= pos,
        0 <= k,
        pos - d_off + k <= pl.len(),
        match dv {
            Option::Some(infl) => infl == pl,
            Option::None => file.len() == d_off + pl.len() && file.subrange(
                d_off,
                file.len() as int,
            ) == pl,
        },
    ensures
        log_read_ok(file, dv, d_off, pos, k),
        log_read(file, dv, d_off, pos, k) == pl.subrange(pos - d_off, pos - d_off + k),
{
    match dv {
        Option::None => {
            assert forall|j: int| 0 <= j < pl.len() implies pl[j] == file[d_off + j] by {
                assert(file.subrange(d_off, file.len() as int)[j] == file[d_off + j]);
            }
        },
        Option::Some(infl) => {
            assert forall|p: int| pos <= p < pos + k implies log_in_range(file, infl, d_off, p) by {}
        },
    }
    assert(log_read(file, dv, d_off, pos, k) =~= pl.subrange(pos - d_off, pos - d_off + k));
}

/// What record `i` of a written file holds and resolves to: its three
/// fields decode to the stored offsets and length, its name offset names
/// section `i`'s name, and its data range reads back section `i`'s data.
#[verifier::spinoff_prover]
#[verifier::rlimit(100)]
proof fn lemma_record_fields(
    s: Seq<(Seq<u8>, Seq<u8>)>,
    e: Endianness,
    comp: bool,
    stored: Seq<u8>,
    i: int,
)
    requires
        s.len() <= 255,
        names_ok(s),
        image_size(s) <= u32::MAX,
        payload_offset(s) + stored.len() <= u32::MAX,
        !comp ==> stored == payload(s, s.len() as int),
        0 <= i < s.len(),
    ensures
        ({
            let file = file_bytes(s, e, comp, stored);
            let dv = if comp {
                Option::Some(payload(s, s.len() as int))
            } else {
                Option::<Seq<u8>>::None
            };
            let d_off = payload_offset(s);
            let tbl = table_blob(s, s.len() as int);
            let rec_pos = 24 + 12 * i;
            &&& log_read_ok(file, dv, d_off, rec_pos, 4)
            &&& log_read_ok(file, dv, d_off, rec_pos + 4, 8)
            &&& u32_of_bytes(e, log_read(file, dv, d_off, rec_pos, 4)) == name_offset(s, i)
            &&& 0 <= name_offset(s, i) < tbl.len()
            &&& entry_at(tbl, name_offset(s, i)) == s[i].0
            &&& u32_of_bytes(e, log_read(file, dv, d_off, rec_pos + 4, 4)) == d_off + payload(
                s,
                i,
            ).len()
            &&& u32_of_bytes(e, log_read(file, dv, d_off, rec_pos + 8, 4)) == s[i].1.len()
            &&& log_read_ok(file, dv, d_off, d_off + payload(s, i).len(), s[i].1.len() as int)
            &&& log_read(file, dv, d_off, d_off + payload(s, i).len(), s[i].1.len() as int)
                == s[i].1
        }),
{
    let file = file_bytes(s, e, comp, stored);
    let n = s.len() as int;
    let tbl = table_blob(s, n);
    let d_off = payload_offset(s);
    let pl = payload(s, n);
    let dv = if comp {
        Option::Some(pl)
    } else {
        Option::<Seq<u8>>::None
    };
    lemma_file_layout(s, e, comp, stored);
    let rec_pos = 24 + 12 * i;
    assert(rec_pos + 12 <= string_table_offset(s));
    assert(string_table_offset(s) <= d_off);
    assert(d_off <= file.len());

    let rec = file.subrange(rec_pos, rec_pos + 12);
    assert(rec == info_record(s, e, i));
    lemma_name_has_entry(s, i, n);
    assert(0 <= name_offset(s, i) && name_offset(s, i) < tbl.len());
    assert(tbl.len() <= u32::MAX);
    assert(rec.subrange(0, 4) =~= u32_bytes(e, name_offset(s, i) as u32));
    lemma_payload_prefix(s, i, n);
    lemma_payload_prefix(s, i + 1, n);
    lemma_payload_slice(s, i, n);
    assert(d_off + payload(s, i).len() <= u32::MAX);
    assert(s[i].1.len() <= u32::MAX);
    assert(rec.subrange(4, 8) =~= u32_bytes(e, (d_off + payload(s, i).len()) as u32));
    assert(rec.subrange(8, 12) =~= u32_bytes(e, s[i].1.len() as u32));

    lemma_log_read_prefix(file, dv, d_off, rec_pos, 4);
    lemma_log_read_prefix(file, dv, d_off, rec_pos + 4, 8);
    lemma_log_read_prefix(file, dv, d_off, rec_pos + 4, 4);
    lemma_log_read_prefix(file, dv, d_off, rec_pos + 8, 4);
    assert(file.subrange(rec_pos, rec_pos + 4) =~= rec.subrange(0, 4));
    assert(file.subrange(rec_pos + 4, rec_pos + 8) =~= rec.subrange(4, 8));
    assert(file.subrange(rec_pos + 8, rec_pos + 12) =~= rec.subrange(8, 12));

    lemma_u32_roundtrip(e, name_offset(s, i) as u32);
    lemma_u32_roundtrip(e, (d_off + payload(s, i).len()) as u32);
    lemma_u32_roundtrip(e, s[i].1.len() as u32);
    lemma_entry_at_of_has_entry(tbl, name_offset(s, i), s[i].0);

    lemma_log_read_payload(file, dv, pl, d_off, d_off + payload(s, i).len(), s[i].1.len() as int);
}

/// Scanning the section-info table of a written file from record `i` on
/// resolves exactly the sections `i ..` that the write stored, in order.
#[verifier::spinoff_prover]
#[verifier::rlimit(100)]
proof fn lemma_read_sections(
    s: Seq<(Seq<u8>, Seq<u8>)>,
    e: Endianness,
    comp: bool,
    stored: Seq<u8>,
    i: int,
)
    requires
        s.len() <= 255,
        names_ok(s),
        image_size(s) <= u32::MAX,
        payload_offset(s) + stored.len() <= u32::MAX,
        !comp ==> stored == payload(s, s.len() as int),
        0 <= i <= s.len(),
    ensures
        ({
            let file = file_bytes(s, e, comp, stored);
            let dv = if comp {
                Option::Some(payload(s, s.len() as int))
            } else {
                Option::<Seq<u8>>::None
            };
            spec_sections(
                file,
                dv,
                payload_offset(s),
                table_blob(s, s.len() as int),
                e,
                s.len() as int,
                i,
            ) == (s.subrange(i, s.len() as int), Option::<SmxError>::None)
        }),
    decreases s.len() - i,
{
    let file = file_bytes(s, e, comp, stored);
    let n = s.len() as int;
    let tbl = table_blob(s, n);
    let d_off = payload_offset(s);
    let pl = payload(s, n);
    let dv = if comp {
        Option::Some(pl)
    } else {
        Option::<Seq<u8>>::None
    };
    if i == n {
        assert(s.subrange(n, n) =~= Seq::<(Seq<u8>, Seq<u8>)>::empty());
    } else {
        lemma_record_fields(s, e, comp, stored, i);
        let rec_pos = 24 + 12 * i;
        let name_off = u32_of_bytes(e, log_read(file, dv, d_off, rec_pos, 4));
        assert(!(name_off >= tbl.len()));
        assert(entry_at(tbl, name_off as int) == s[i].0);
        lemma_read_sections(s, e, comp, stored, i + 1);
        assert((s[i].0, s[i].1) == s[i]);
        assert(seq![s[i]] + s.subrange(i + 1, n) =~= s.subrange(i, n));
    }
}

/// The header fields that a written file parses back to, in its own
/// byte order.
pub open spec fn written_header(s: Seq<(Seq<u8>, Seq<u8>)>, comp: bool, stored_len: int) -> SmxHeader {
    SmxHeader {
        compressed: comp,
        disk_size: (payload_offset(s) + stored_len) as u32,
        image_size: image_size(s) as u32,
        n_sections: s.len() as u8,
        string_table_offset: string_table_offset(s) as u32,
        payload_offset: payload_offset(s) as u32,
    }
}

/// Four arbitrary bytes that match the magic number in neither byte order
/// stop the read with exactly those four bytes.
pub proof fn lemma_magic_mismatch(file: Seq<u8>)
    requires
        file.len() >= 4,
        u32_of_bytes(Endianness::Little, file.subrange(0, 4)) != FILE_MAGIC,
        u32_of_bytes(Endianness::Big, file.subrange(0, 4)) != FILE_MAGIC,
    ensures
        spec_read(file) == Err::<(Seq<(Seq<u8>, Seq<u8>)>, Endianness), SmxError>(
            SmxError::Magic([file[0], file[1], file[2], file[3]]),
        ),
        spec_delivered(file) == Seq::<(Seq<u8>, Seq<u8>)>::empty(),
{
}

/// A file that starts with the magic number in order `e` infers `e`.
proof fn lemma_magic_of(file: Seq<u8>, e: Endianness)
    requires
        file.len() >= 4,
        file.subrange(0, 4) == u32_bytes(e, FILE_MAGIC),
    ensures
        spec_magic(file) == Ok::<Endianness, SmxError>(e),
{
    lemma_u32_roundtrip(e, FILE_MAGIC);
    assert(u32_bytes(Endianness::Big, FILE_MAGIC) =~= seq![0x53u8, 0x50u8, 0x46u8, 0x46u8]);
    assert(u32_bytes(Endianness::Little, FILE_MAGIC) =~= seq![0x46u8, 0x46u8, 0x50u8, 0x53u8]);
    assert(u32_of_bytes(Endianness::Little, seq![0x53u8, 0x50u8, 0x46u8, 0x46u8]) == 0x46465053u32);
}

/// A written file's magic bytes give back the order that wrote them, and
/// its header parses back to the fields the write computed.
#[verifier::spinoff_prover]
#[verifier::rlimit(100)]
proof fn lemma_written_header(s: Seq<(Seq<u8>, Seq<u8>)>, e: Endianness, comp: bool, stored: Seq<u8>)
    requires
        s.len() <= 255,
        image_size(s) <= u32::MAX,
        payload_offset(s) + stored.len() <= u32::MAX,
    ensures
        spec_magic(file_bytes(s, e, comp, stored)) == Ok::<Endianness, SmxError>(e),
        spec_parse_header(file_bytes(s, e, comp, stored), e) == Ok::<SmxHeader, SmxError>(
            written_header(s, comp, stored.len() as int),
        ),
{
    let file = file_bytes(s, e, comp, stored);
    let d_off = payload_offset(s);
    lemma_file_layout(s, e, comp, stored);

    lemma_magic_of(file, e);

    lemma_u16_roundtrip(e, TARGET_VERSION);
    lemma_u32_roundtrip(e, (d_off + stored.len()) as u32);
    lemma_u32_roundtrip(e, image_size(s) as u32);
    lemma_u32_roundtrip(e, string_table_offset(s) as u32);
    lemma_u32_roundtrip(e, d_off as u32);
    assert(spec_parse_header(file, e) == Ok::<SmxHeader, SmxError>(
        written_header(s, comp, stored.len() as int),
    ));
}

/// A written file's string table and payload regions read back as the
/// table blob and the stored payload the write emitted, and its logical
/// length matches the declared image size.
#[verifier::spinoff_prover]
#[verifier::rlimit(100)]
proof fn lemma_written_regions(
    s: Seq<(Seq<u8>, Seq<u8>)>,
    e: Endianness,
    comp: bool,
    stored: Seq<u8>,
)
    requires
        s.len() <= 255,
        image_size(s) <= u32::MAX,
        payload_offset(s) + stored.len() <= u32::MAX,
        comp ==> zlib_inflate(stored) == Option::Some(payload(s, s.len() as int)),
        !comp ==> stored == payload(s, s.len() as int),
    ensures
        ({
            let file = file_bytes(s, e, comp, stored);
            let h = written_header(s, comp, stored.len() as int);
            let dv = if comp {
                Option::Some(payload(s, s.len() as int))
            } else {
                Option::<Seq<u8>>::None
            };
            &&& spec_table(file, h) == Ok::<Seq<u8>, SmxError>(table_blob(s, s.len() as int))
            &&& spec_payload(file, h) == Ok::<Option<Seq<u8>>, SmxError>(dv)
            &&& spec_actual_len(file, dv, h.payload_offset as int) == h.image_size as u64
        }),
{
    let file = file_bytes(s, e, comp, stored);
    let h = written_header(s, comp, stored.len() as int);
    let n = s.len() as int;
    let tbl = table_blob(s, n);
    let pl = payload(s, n);
    let dv = if comp {
        Option::Some(pl)
    } else {
        Option::<Seq<u8>>::None
    };
    lemma_file_layout(s, e, comp, stored);
    assert(spec_table(file, h) == Ok::<Seq<u8>, SmxError>(tbl)) by {
        if h.string_table_offset == h.payload_offset {
            assert(tbl =~= Seq::<u8>::empty());
        }
    }
    assert(spec_payload(file, h) == Ok::<Option<Seq<u8>>, SmxError>(dv)) by {
        if comp {
            assert(file.subrange(h.payload_offset as int, file.len() as int) == stored);
        }
    }
    assert(log_len(file, dv, h.payload_offset as int) == image_size(s));
}

/// Reading back a file whose stored payload inflates to (or, uncompressed,
/// is) the concatenated section data gives exactly the written sections
/// and the byte order that wrote them.
#[verifier::spinoff_prover]
#[verifier::rlimit(100)]
pub proof fn lemma_file_round_trip(
    s: Seq<(Seq<u8>, Seq<u8>)>,
    e: Endianness,
    comp: bool,
    stored: Seq<u8>,
)
    requires
        s.len() <= 255,
        names_ok(s),
        image_size(s) <= u32::MAX,
        payload_offset(s) + stored.len() <= u32::MAX,
        comp ==> zlib_inflate(stored) == Option::Some(payload(s, s.len() as int)),
        !comp ==> stored == payload(s, s.len() as int),
    ensures
        spec_read(file_bytes(s, e, comp, stored)) == Ok::<_, SmxError>((s, e)),
        spec_delivered(file_bytes(s, e, comp, stored)) == s,
{
    let file = file_bytes(s, e, comp, stored);
    let n = s.len() as int;
    let dv = if comp {
        Option::Some(payload(s, n))
    } else {
        Option::<Seq<u8>>::None
    };
    lemma_written_header(s, e, comp, stored);
    lemma_written_regions(s, e, comp, stored);
    let h = written_header(s, comp, stored.len() as int);
    lemma_read_sections(s, e, comp, stored, 0);
    assert(s.subrange(0, n) =~= s);
    assert(spec_read_no_magic(file, e) == Ok::<_, SmxError>((s, e)));
    assert(spec_delivered_no_magic(file, e) == s);
}


/// A written file with its image-size field overwritten still parses its
/// magic and header, with the tampered value in place of the image size,
/// and every byte outside that field unchanged.
#[verifier::spinoff_prover]
#[verifier::rlimit(100)]
proof fn lemma_image_tamper_header(
    s: Seq<(Seq<u8>, Seq<u8>)>,
    e: Endianness,
    comp: bool,
    stored: Seq<u8>,
    v: u32,
)
    requires
        s.len() <= 255,
        image_size(s) <= u32::MAX,
        payload_offset(s) + stored.len() <= u32::MAX,
    ensures
        ({
            let file = file_bytes(s, e, comp, stored);
            let patched = file.subrange(0, 11) + u32_bytes(e, v) + file.subrange(
                15,
                file.len() as int,
            );
            &&& patched.len() == file.len()
            &&& forall|p: int|
                15 <= p < file.len() ==> #[trigger] patched[p] == file[p]
            &&& spec_magic(patched) == Ok::<Endianness, SmxError>(e)
            &&& spec_parse_header(patched, e) == Ok::<SmxHeader, SmxError>(
                SmxHeader {
                    image_size: v,
                    ..written_header(s, comp, stored.len() as int)
                },
            )
        }),
{
    let file = file_bytes(s, e, comp, stored);
    let patched = file.subrange(0, 11) + u32_bytes(e, v) + file.subrange(15, file.len() as int);
    let d_off = payload_offset(s);
    lemma_file_layout(s, e, comp, stored);
    assert(u32_bytes(e, v).len() == 4);
    assert(patched.len() == file.len());
    assert forall|p: int| 15 <= p < file.len() implies #[trigger] patched[p] == file[p] by {
        assert(patched[p] == file.subrange(15, file.len() as int)[p - 15]);
    }
    assert forall|p: int| 0 <= p < 11 implies #[trigger] patched[p] == file[p] by {
        assert(patched[p] == file.subrange(0, 11)[p]);
    }
    assert(patched.subrange(0, 4) =~= file.subrange(0, 4));
    lemma_magic_of(patched, e);
    assert(patched.subrange(4, 6) =~= file.subrange(4, 6));
    assert(patched[6] == file[6]);
    assert(patched.subrange(7, 11) =~= file.subrange(7, 11));
    assert(patched.subrange(11, 15) =~= u32_bytes(e, v));
    assert(patched[15] == file[15]);
    assert(patched.subrange(16, 20) =~= file.subrange(16, 20));
    assert(patched.subrange(20, 24) =~= file.subrange(20, 24));
    lemma_u16_roundtrip(e, TARGET_VERSION);
    lemma_u32_roundtrip(e, (d_off + stored.len()) as u32);
    lemma_u32_roundtrip(e, v);
    lemma_u32_roundtrip(e, string_table_offset(s) as u32);
    lemma_u32_roundtrip(e, d_off as u32);
}

/// Any file that agrees with a written file from the string table on, and
/// whose header fields still name the written offsets and disk size,
/// reads back the written table blob and stored payload and has the
/// written logical length.
#[verifier::spinoff_prover]
#[verifier::rlimit(100)]
proof fn lemma_regions_of_like(
    s: Seq<(Seq<u8>, Seq<u8>)>,
    e: Endianness,
    comp: bool,
    stored: Seq<u8>,
    q: Seq<u8>,
    h: SmxHeader,
)
    requires
        s.len() <= 255,
        image_size(s) <= u32::MAX,
        payload_offset(s) + stored.len() <= u32::MAX,
        comp ==> zlib_inflate(stored) == Option::Some(payload(s, s.len() as int)),
        !comp ==> stored == payload(s, s.len() as int),
        q.len() == file_bytes(s, e, comp, stored).len(),
        forall|p: int|
            string_table_offset(s) <= p < q.len() ==> #[trigger] q[p] == file_bytes(
                s,
                e,
                comp,
                stored,
            )[p],
        h.compressed == comp,
        h.disk_size == (payload_offset(s) + stored.len()) as u32,
        h.string_table_offset == string_table_offset(s) as u32,
        h.payload_offset == payload_offset(s) as u32,
    ensures
        ({
            let dv = if comp {
                Option::Some(payload(s, s.len() as int))
            } else {
                Option::<Seq<u8>>::None
            };
            &&& spec_table(q, h) == Ok::<Seq<u8>, SmxError>(table_blob(s, s.len() as int))
            &&& spec_payload(q, h) == Ok::<Option<Seq<u8>>, SmxError>(dv)
            &&& spec_actual_len(q, dv, h.payload_offset as int) == image_size(s) as u64
        }),
{
    let file = file_bytes(s, e, comp, stored);
    let n = s.len() as int;
    let tbl = table_blob(s, n);
    let d_off = payload_offset(s);
    let pl = payload(s, n);
    let dv = if comp {
        Option::Some(pl)
    } else {
        Option::<Seq<u8>>::None
    };
    lemma_file_layout(s, e, comp, stored);

    assert(spec_table(q, h) == Ok::<Seq<u8>, SmxError>(tbl)) by {
        if h.string_table_offset == h.payload_offset {
            assert(tbl =~= Seq::<u8>::empty());
        } else {
            assert(q.subrange(string_table_offset(s), d_off) =~= file.subrange(
                string_table_offset(s),
                d_off,
            ));
        }
    }

    assert(q.subrange(d_off, q.len() as int) =~= file.subrange(d_off, file.len() as int));
    assert(spec_payload(q, h) == Ok::<Option<Seq<u8>>, SmxError>(dv));
    assert(log_len(q, dv, h.payload_offset as int) == image_size(s));
}

/// Corrupting the image-size field of a validly written file is caught:
/// the read stops with the tampered declared value and the true logical
/// length, whatever else the file holds.
#[verifier::spinoff_prover]
#[verifier::rlimit(100)]
pub proof fn lemma_image_size_tamper(
    s: Seq<(Seq<u8>, Seq<u8>)>,
    e: Endianness,
    comp: bool,
    stored: Seq<u8>,
    v: u32,
)
    requires
        s.len() <= 255,
        names_ok(s),
        image_size(s) <= u32::MAX,
        payload_offset(s) + stored.len() <= u32::MAX,
        comp ==> zlib_inflate(stored) == Option::Some(payload(s, s.len() as int)),
        !comp ==> stored == payload(s, s.len() as int),
        v != image_size(s) as u32,
    ensures
        ({
            let file = file_bytes(s, e, comp, stored);
            let patched = file.subrange(0, 11) + u32_bytes(e, v) + file.subrange(
                15,
                file.len() as int,
            );
            spec_read(patched) == Err::<(Seq<(Seq<u8>, Seq<u8>)>, Endianness), SmxError>(
                SmxError::NotAtImageSize { declared: v, actual: image_size(s) as u64 },
            )
        }),
{
    let file = file_bytes(s, e, comp, stored);
    let patched = file.subrange(0, 11) + u32_bytes(e, v) + file.subrange(15, file.len() as int);
    lemma_image_tamper_header(s, e, comp, stored, v);
    let h = SmxHeader { image_size: v, ..written_header(s, comp, stored.len() as int) };
    lemma_regions_of_like(s, e, comp, stored, patched, h);
    let dv = if comp {
        Option::Some(payload(s, s.len() as int))
    } else {
        Option::<Seq<u8>>::None
    };
    assert(image_size(s) as u64 != v as u64);
    assert(spec_actual_len(patched, dv, h.payload_offset as int) != h.image_size as u64);
}

/// Record `j` of a file that agrees with a written file on that record
/// and on everything from the string table on still resolves section `j`.
#[verifier::spinoff_prover]
#[verifier::rlimit(100)]
proof fn lemma_record_fields_like(
    s: Seq<(Seq<u8>, Seq<u8>)>,
    e: Endianness,
    comp: bool,
    stored: Seq<u8>,
    q: Seq<u8>,
    j: int,
)
    requires
        s.len() <= 255,
        names_ok(s),
        image_size(s) <= u32::MAX,
        payload_offset(s) + stored.len() <= u32::MAX,
        !comp ==> stored == payload(s, s.len() as int),
        0 <= j < s.len(),
        q.len() == file_bytes(s, e, comp, stored).len(),
        forall|p: int|
            24 + 12 * j <= p < 24 + 12 * j + 12 ==> #[trigger] q[p] == file_bytes(
                s,
                e,
                comp,
                stored,
            )[p],
        forall|p: int|
            string_table_offset(s) <= p < q.len() ==> #[trigger] q[p] == file_bytes(
                s,
                e,
                comp,
                stored,
            )[p],
    ensures
        ({
            let dv = if comp {
                Option::Some(payload(s, s.len() as int))
            } else {
                Option::<Seq<u8>>::None
            };
            let d_off = payload_offset(s);
            let tbl = table_blob(s, s.len() as int);
            let rec_pos = 24 + 12 * j;
            &&& log_read_ok(q, dv, d_off, rec_pos, 4)
            &&& log_read_ok(q, dv, d_off, rec_pos + 4, 8)
            &&& u32_of_bytes(e, log_read(q, dv, d_off, rec_pos, 4)) == name_offset(s, j)
            &&& 0 <= name_offset(s, j) < tbl.len()
            &&& entry_at(tbl, name_offset(s, j)) == s[j].0
            &&& u32_of_bytes(e, log_read(q, dv, d_off, rec_pos + 4, 4)) == d_off + payload(
                s,
                j,
            ).len()
            &&& u32_of_bytes(e, log_read(q, dv, d_off, rec_pos + 8, 4)) == s[j].1.len()
            &&& log_read_ok(q, dv, d_off, d_off + payload(s, j).len(), s[j].1.len() as int)
            &&& log_read(q, dv, d_off, d_off + payload(s, j).len(), s[j].1.len() as int)
                == s[j].1
        }),
{
    let file = file_bytes(s, e, comp, stored);
    let n = s.len() as int;
    let tbl = table_blob(s, n);
    let d_off = payload_offset(s);
    let pl = payload(s, n);
    let dv = if comp {
        Option::Some(pl)
    } else {
        Option::<Seq<u8>>::None
    };
    let rec_pos = 24 + 12 * j;
    lemma_file_layout(s, e, comp, stored);
    lemma_record_fields(s, e, comp, stored, j);
    assert(rec_pos + 12 <= string_table_offset(s));
    assert(d_off <= file.len());

    lemma_log_read_prefix(file, dv, d_off, rec_pos, 4);
    lemma_log_read_prefix(file, dv, d_off, rec_pos + 4, 8);
    lemma_log_read_prefix(file, dv, d_off, rec_pos + 4, 4);
    lemma_log_read_prefix(file, dv, d_off, rec_pos + 8, 4);
    lemma_log_read_prefix(q, dv, d_off, rec_pos, 4);
    lemma_log_read_prefix(q, dv, d_off, rec_pos + 4, 8);
    lemma_log_read_prefix(q, dv, d_off, rec_pos + 4, 4);
    lemma_log_read_prefix(q, dv, d_off, rec_pos + 8, 4);
    assert(q.subrange(rec_pos, rec_pos + 4) =~= file.subrange(rec_pos, rec_pos + 4));
    assert(q.subrange(rec_pos + 4, rec_pos + 8) =~= file.subrange(rec_pos + 4, rec_pos + 8));
    assert(q.subrange(rec_pos + 8, rec_pos + 12) =~= file.subrange(rec_pos + 8, rec_pos + 12));

    lemma_payload_prefix(s, j, n);
    lemma_payload_prefix(s, j + 1, n);
    lemma_payload_slice(s, j, n);
    assert(q.subrange(d_off, q.len() as int) =~= file.subrange(d_off, file.len() as int));
    lemma_log_read_payload(q, dv, pl, d_off, d_off + payload(s, j).len(), s[j].1.len() as int);
    assert(log_read(q, dv, d_off, d_off + payload(s, j).len(), s[j].1.len() as int) == s[j].1);
}

/// Scanning a written file whose record `i` has its name offset replaced
/// by an offset at or past the end of the string table resolves the
/// sections before `i` and then stops with that offset and the table size.
#[verifier::spinoff_prover]
#[verifier::rlimit(100)]
proof fn lemma_tampered_sections(
    s: Seq<(Seq<u8>, Seq<u8>)>,
    e: Endianness,
    comp: bool,
    stored: Seq<u8>,
    q: Seq<u8>,
    v: u32,
    i: int,
    j: int,
)
    requires
        s.len() <= 255,
        names_ok(s),
        image_size(s) <= u32::MAX,
        payload_offset(s) + stored.len() <= u32::MAX,
        !comp ==> stored == payload(s, s.len() as int),
        0 <= j <= i < s.len(),
        q.len() == file_bytes(s, e, comp, stored).len(),
        forall|p: int|
            0 <= p < q.len() && !(24 + 12 * i <= p < 24 + 12 * i + 4) ==> #[trigger] q[p]
                == file_bytes(s, e, comp, stored)[p],
        q.subrange(24 + 12 * i, 24 + 12 * i + 4) == u32_bytes(e, v),
        v >= table_blob(s, s.len() as int).len(),
    ensures
        ({
            let dv = if comp {
                Option::Some(payload(s, s.len() as int))
            } else {
                Option::<Seq<u8>>::None
            };
            spec_sections(
                q,
                dv,
                payload_offset(s),
                table_blob(s, s.len() as int),
                e,
                s.len() as int,
                j,
            ) == (
                s.subrange(j, i),
                Option::Some(
                    SmxError::SectionNameOffset {
                        section: i as u8,
                        name_offset: v,
                        string_table_size: table_blob(s, s.len() as int).len() as usize,
                    },
                ),
            )
        }),
    decreases i - j,
{
    let file = file_bytes(s, e, comp, stored);
    let n = s.len() as int;
    let tbl = table_blob(s, n);
    let d_off = payload_offset(s);
    let pl = payload(s, n);
    let dv = if comp {
        Option::Some(pl)
    } else {
        Option::<Seq<u8>>::None
    };
    lemma_file_layout(s, e, comp, stored);
    if j == i {
        let rec_pos = 24 + 12 * i;
        assert(rec_pos + 12 <= string_table_offset(s));
        assert(d_off <= q.len());
        lemma_log_read_prefix(q, dv, d_off, rec_pos, 4);
        assert(log_read(q, dv, d_off, rec_pos, 4) == u32_bytes(e, v));
        lemma_u32_roundtrip(e, v);
        assert(u32_of_bytes(e, log_read(q, dv, d_off, rec_pos, 4)) == v);
        assert(s.subrange(i, i) =~= Seq::<(Seq<u8>, Seq<u8>)>::empty());
    } else {
        assert(forall|p: int|
            24 + 12 * j <= p < 24 + 12 * j + 12 ==> #[trigger] q[p] == file[p]);
        assert(forall|p: int|
            string_table_offset(s) <= p < q.len() ==> #[trigger] q[p] == file[p]);
        lemma_record_fields_like(s, e, comp, stored, q, j);
        let rec_pos = 24 + 12 * j;
        let name_off = u32_of_bytes(e, log_read(q, dv, d_off, rec_pos, 4));
        assert(!(name_off >= tbl.len()));
        assert(entry_at(tbl, name_off as int) == s[j].0);
        lemma_tampered_sections(s, e, comp, stored, q, v, i, j + 1);
        assert((s[j].0, s[j].1) == s[j]);
        assert(seq![s[j]] + s.subrange(j + 1, i) =~= s.subrange(j, i));
    }
}

/// Patching the name-offset field of a section-info record of a validly
/// written file to an offset at or past the end of the string table is
/// caught: the read stops with that record's index, the patched offset and
/// the true table size, after delivering only the sections before it.
#[verifier::spinoff_prover]
#[verifier::rlimit(100)]
pub proof fn lemma_name_offset_tamper(
    s: Seq<(Seq<u8>, Seq<u8>)>,
    e: Endianness,
    comp: bool,
    stored: Seq<u8>,
    v: u32,
    i: int,
)
    requires
        s.len() <= 255,
        names_ok(s),
        image_size(s) <= u32::MAX,
        payload_offset(s) + stored.len() <= u32::MAX,
        comp ==> zlib_inflate(stored) == Option::Some(payload(s, s.len() as int)),
        !comp ==> stored == payload(s, s.len() as int),
        0 <= i < s.len(),
        v >= table_blob(s, s.len() as int).len(),
    ensures
        ({
            let file = file_bytes(s, e, comp, stored);
            let patched = file.subrange(0, 24 + 12 * i) + u32_bytes(e, v) + file.subrange(
                24 + 12 * i + 4,
                file.len() as int,
            );
            &&& spec_read(patched) == Err::<(Seq<(Seq<u8>, Seq<u8>)>, Endianness), SmxError>(
                SmxError::SectionNameOffset {
                    section: i as u8,
                    name_offset: v,
                    string_table_size: table_blob(s, s.len() as int).len() as usize,
                },
            )
            &&& spec_delivered(patched) == s.subrange(0, i)
        }),
{
    let file = file_bytes(s, e, comp, stored);
    let rec_pos = 24 + 12 * i;
    let patched = file.subrange(0, rec_pos) + u32_bytes(e, v) + file.subrange(
        rec_pos + 4,
        file.len() as int,
    );
    let n = s.len() as int;
    let tbl = table_blob(s, n);
    let d_off = payload_offset(s);
    let dv = if comp {
        Option::Some(payload(s, n))
    } else {
        Option::<Seq<u8>>::None
    };
    lemma_file_layout(s, e, comp, stored);
    assert(u32_bytes(e, v).len() == 4);
    assert(rec_pos + 12 <= string_table_offset(s));
    assert(patched.len() == file.len());
    assert forall|p: int|
        0 <= p < patched.len() && !(rec_pos <= p < rec_pos + 4) implies #[trigger] patched[p]
        == file[p] by {
        if p < rec_pos {
            assert(patched[p] == file.subrange(0, rec_pos)[p]);
        } else {
            assert(patched[p] == file.subrange(rec_pos + 4, file.len() as int)[p - rec_pos - 4]);
        }
    }
    assert(patched.subrange(rec_pos, rec_pos + 4) =~= u32_bytes(e, v));

    assert(patched.subrange(0, 4) =~= file.subrange(0, 4));
    lemma_magic_of(patched, e);
    assert(patched.subrange(4, 6) =~= file.subrange(4, 6));
    assert(patched[6] == file[6]);
    assert(patched.subrange(7, 11) =~= file.subrange(7, 11));
    assert(patched.subrange(11, 15) =~= file.subrange(11, 15));
    assert(patched[15] == file[15]);
    assert(patched.subrange(16, 20) =~= file.subrange(16, 20));
    assert(patched.subrange(20, 24) =~= file.subrange(20, 24));
    lemma_u16_roundtrip(e, TARGET_VERSION);
    lemma_u32_roundtrip(e, (d_off + stored.len()) as u32);
    lemma_u32_roundtrip(e, image_size(s) as u32);
    lemma_u32_roundtrip(e, string_table_offset(s) as u32);
    lemma_u32_roundtrip(e, d_off as u32);
    let h = written_header(s, comp, stored.len() as int);
    assert(spec_parse_header(patched, e) == Ok::<SmxHeader, SmxError>(h));

    lemma_regions_of_like(s, e, comp, stored, patched, h);
    assert(spec_actual_len(patched, dv, h.payload_offset as int) == h.image_size as u64);

    lemma_tampered_sections(s, e, comp, stored, patched, v, i, 0);
}

/// A container with zero sections writes to a file whose section-count
/// byte is zero and whose string table is empty: both table offsets point
/// at the end of the header.  Without compression it also reads straight
/// back as the empty container; with compression the same follows from the
/// write path's contract once the compressor has run.
pub proof fn lemma_empty_container(e: Endianness, level: CompressionLevel)
    ensures
        ({
            let s = Seq::<(Seq<u8>, Seq<u8>)>::empty();
            let file = spec_write(s, e, level);
            &&& file[15] == 0
            &&& u32_of_bytes(e, file.subrange(16, 20)) == SMX_HEADER_LEN
            &&& u32_of_bytes(e, file.subrange(20, 24)) == SMX_HEADER_LEN
            &&& level == CompressionLevel::NoCompression ==> spec_read(file) == Ok::<_, SmxError>(
                (s, e),
            )
        }),
{
    let s = Seq::<(Seq<u8>, Seq<u8>)>::empty();
    let comp = level != CompressionLevel::NoCompression;
    let stored = if comp {
        zlib_deflate(payload(s, 0), level.spec_level())
    } else {
        payload(s, 0)
    };
    assert(table_blob(s, 0) == Seq::<u8>::empty());
    assert(payload(s, 0) == Seq::<u8>::empty());
    assert(string_table_offset(s) == 24);
    assert(payload_offset(s) == 24);
    lemma_file_layout(s, e, comp, stored);
    lemma_u32_roundtrip(e, 24u32);
    if !comp {
        assert(image_size(s) == 24);
        assert(payload_offset(s) + stored.len() == 24);
        lemma_file_round_trip(s, e, false, stored);
    }
}

/// The first index of `m` whose name equals `name`, or `m.len()`.
pub open spec fn find_name(m: Seq<(Seq<u8>, Seq<u8>)>, name: Seq<u8>) -> int
    decreases m.len(),
{
    if m.len() == 0 {
        0
    } else if m[0].0 == name {
        0
    } else {
        1 + find_name(m.drop_first(), name)
    }
}

/// One sink step: replace the data of the first section that already holds
/// this name, or append a new section.  A later write of a name wins over
/// an earlier one.
pub open spec fn spec_upsert(
    m: Seq<(Seq<u8>, Seq<u8>)>,
    name: Seq<u8>,
    data: Seq<u8>,
) -> Seq<(Seq<u8>, Seq<u8>)> {
    let i = find_name(m, name);
    if i < m.len() {
        m.update(i, (name, data))
    } else {
        m.push((name, data))
    }
}

/// The sink after every pair of `pairs` is written in order.
pub open spec fn spec_upsert_all(
    m: Seq<(Seq<u8>, Seq<u8>)>,
    pairs: Seq<(Seq<u8>, Seq<u8>)>,
) -> Seq<(Seq<u8>, Seq<u8>)>
    decreases pairs.len(),
{
    if pairs.len() == 0 {
        m
    } else {
        spec_upsert_all(spec_upsert(m, pairs[0].0, pairs[0].1), pairs.drop_first())
    }
}

/// `find_name` names the first match: a valid index that matches with no
/// earlier match, or the length when nothing matches.
pub proof fn lemma_find_name(m: Seq<(Seq<u8>, Seq<u8>)>, name: Seq<u8>)
    ensures
        0 <= find_name(m, name) <= m.len(),
        find_name(m, name) < m.len() ==> m[find_name(m, name)].0 == name,
        forall|j: int| 0 <= j < find_name(m, name) ==> m[j].0 != name,
    decreases m.len(),
{
    if m.len() > 0 && m[0].0 != name {
        lemma_find_name(m.drop_first(), name);
        assert(forall|j: int| 0 <= j < find_name(m.drop_first(), name) ==> m.drop_first()[j].0
            != name);
        assert(forall|j: int| 1 <= j < find_name(m, name) ==> m[j].0 == m.drop_first()[j - 1].0);
    }
}

/// Writing one more pair into a sink is one more upsert.
pub proof fn lemma_upsert_all_push(
    m: Seq<(Seq<u8>, Seq<u8>)>,
    d: Seq<(Seq<u8>, Seq<u8>)>,
    p: (Seq<u8>, Seq<u8>),
)
    ensures
        spec_upsert_all(m, d.push(p)) == spec_upsert(spec_upsert_all(m, d), p.0, p.1),
    decreases d.len(),
{
    if d.len() == 0 {
        assert(d.push(p)[0] == p);
        assert(d.push(p).drop_first() =~= Seq::<(Seq<u8>, Seq<u8>)>::empty());
        assert(spec_upsert_all(m, d.push(p)) == spec_upsert_all(
            spec_upsert(m, p.0, p.1),
            Seq::empty(),
        ));
        assert(spec_upsert_all(spec_upsert(m, p.0, p.1), Seq::empty()) == spec_upsert(
            m,
            p.0,
            p.1,
        ));
        assert(spec_upsert_all(m, d) == m);
    } else {
        assert(d.push(p)[0] == d[0]);
        assert(d.push(p).drop_first() =~= d.drop_first().push(p));
        lemma_upsert_all_push(spec_upsert(m, d[0].0, d[0].1), d.drop_first(), p);
        assert(spec_upsert_all(m, d.push(p)) == spec_upsert_all(
            spec_upsert(m, d[0].0, d[0].1),
            d.drop_first().push(p),
        ));
        assert(spec_upsert_all(m, d) == spec_upsert_all(
            spec_upsert(m, d[0].0, d[0].1),
            d.drop_first(),
        ));
    }
}

/// Writing pairs whose names are fresh and pairwise distinct only appends
/// them, in order.
pub proof fn lemma_upsert_all_fresh(m: Seq<(Seq<u8>, Seq<u8>)>, pairs: Seq<(Seq<u8>, Seq<u8>)>)
    requires
        names_unique(pairs),
        forall|i: int, j: int|
            0 <= i < m.len() && 0 <= j < pairs.len() ==> (#[trigger] m[i].0) != (
            #[trigger] pairs[j].0),
    ensures
        spec_upsert_all(m, pairs) == m + pairs,
    decreases pairs.len(),
{
    if pairs.len() == 0 {
        assert(m + pairs =~= m);
    } else {
        lemma_find_name(m, pairs[0].0);
        assert(find_name(m, pairs[0].0) == m.len());
        let m2 = m.push(pairs[0]);
        let rest = pairs.drop_first();
        assert(names_unique(rest)) by {
            assert(forall|i: int, j: int|
                0 <= i < j < rest.len() ==> rest[i].0 == pairs[i + 1].0 && rest[j].0
                    == pairs[j + 1].0);
        }
        assert(forall|i: int, j: int|
            0 <= i < m2.len() && 0 <= j < rest.len() ==> (#[trigger] m2[i].0) != (
            #[trigger] rest[j].0)) by {
            assert(forall|j: int| 0 <= j < rest.len() ==> rest[j].0 == pairs[j + 1].0);
        }
        lemma_upsert_all_fresh(m2, rest);
        assert(m2 + rest =~= m + pairs);
    }
}

/// Reading the pairs that a write stored back into an empty sink
/// reproduces them exactly, when no two share a name.
pub proof fn lemma_upsert_all_identity(pairs: Seq<(Seq<u8>, Seq<u8>)>)
    requires
        names_unique(pairs),
    ensures
        spec_upsert_all(Seq::empty(), pairs) == pairs,
{
    lemma_upsert_all_fresh(Seq::empty(), pairs);
    assert(Seq::empty() + pairs =~= pairs);
}

/// An upsert of a null-free name keeps the sink well formed: names stay
/// pairwise distinct and free of null bytes.
pub proof fn lemma_upsert_wf(m: Seq<(Seq<u8>, Seq<u8>)>, name: Seq<u8>, data: Seq<u8>)
    requires
        names_ok(m),
        names_unique(m),
        nul_free(name),
    ensures
        names_ok(spec_upsert(m, name, data)),
        names_unique(spec_upsert(m, name, data)),
{
    lemma_find_name(m, name);
    let i = find_name(m, name);
    let m2 = spec_upsert(m, name, data);
    if i < m.len() {
        assert(forall|j: int| 0 <= j < m2.len() ==> m2[j].0 == if j == i {
            name
        } else {
            m[j].0
        });
        assert(m[i].0 == name);
    } else {
        assert(forall|j: int| 0 <= j < m.len() ==> m2[j].0 == m[j].0);
        assert(m2[m.len() as int].0 == name);
    }
}

/// Append a byte slice to a vector.
fn append_bytes(out: &mut Vec<u8>, data: &[u8])
    ensures
        final(out)@ == old(out)@ + data@,
{
    let mut i: usize = 0;
    while i < data.len()
        invariant
            0 <= i <= data@.len(),
            out@ == old(out)@ + data@.subrange(0, i as int),
        decreases data@.len() - i,
    {
        out.push(data[i]);
        proof {
            assert(old(out)@ + data@.subrange(0, i as int) + seq![data@[i as int]] =~= old(out)@
                + data@.subrange(0, i + 1));
        }
        i = i + 1;
    }
    proof {
        assert(old(out)@ + data@.subrange(0, data@.len() as int) =~= old(out)@ + data@);
    }
}

/// Write the contents of an SMX file, with a specific [`CompressionLevel`]
/// and byte order, from a list of sections with no duplicate names.
///
/// Returns the file bytes, or nothing when the stored payload that the
/// compressor produced would push the total stored size past what the
/// 4-byte disk-size header field can hold.
#[verifier::rlimit(80)]
pub fn write_to(
    e: Endianness,
    compression_level: CompressionLevel,
    sections: &[(Vec<u8>, Vec<u8>)],
) -> (r: Option<Vec<u8>>)
    requires
        sections@.len() <= 255,
        names_ok(sections_view(sections@)),
        names_unique(sections_view(sections@)),
        image_size(sections_view(sections@)) <= u32::MAX,
    ensures
        ({
            let sv = sections_view(sections@);
            match r {
                Some(v) => {
                    &&& v@ == spec_write(sv, e, compression_level)
                    &&& spec_read(v@) == Ok::<_, SmxError>((sv, e))
                    &&& spec_delivered(v@) == sv
                },
                None => {
                    &&& compression_level != CompressionLevel::NoCompression
                    &&& payload_offset(sv) + zlib_deflate(
                        payload(sv, sv.len() as int),
                        compression_level.spec_level(),
                    ).len() > u32::MAX
                },
            }
        }),
{
    let ghost sv = sections_view(sections@);
    let n = sections.len();

    let mut strings = CStrTable::new();
    let mut sec_data: Vec<u8> = Vec::new();
    let mut name_offsets: Vec<u32> = Vec::new();
    let mut data_offsets: Vec<u32> = Vec::new();
    let mut lengths: Vec<u32> = Vec::new();

    proof {
        lemma_table_blob_prefix(sv, 0, sv.len() as int);
        lemma_payload_prefix(sv, 0, sv.len() as int);
    }

    let mut i: usize = 0;
    while i < n
        invariant
            sv == sections_view(sections@),
            n == sections@.len(),
            n <= 255,
            names_ok(sv),
            image_size(sv) <= u32::MAX,
            0 <= i <= n,
            strings@ == table_blob(sv, i as int),
            strings.wf(),
            sec_data@ == payload(sv, i as int),
            name_offsets@.len() == i,
            data_offsets@.len() == i,
            lengths@.len() == i,
            forall|j: int| 0 <= j < i ==> name_offsets@[j] == name_offset(sv, j) as u32,
            forall|j: int| 0 <= j < i ==> data_offsets@[j] == payload(sv, j).len() as u32,
            forall|j: int| 0 <= j < i ==> lengths@[j] == sv[j].1.len() as u32,
        decreases n - i,
    {
        proof {
            assert(sv[i as int] == (sections@[i as int].0@, sections@[i as int].1@));
            lemma_table_blob_prefix(sv, i as int, sv.len() as int);
            lemma_table_blob_prefix(sv, i + 1, sv.len() as int);
            lemma_payload_prefix(sv, i as int, sv.len() as int);
            lemma_payload_prefix(sv, i + 1, sv.len() as int);
        }
        let pair = &sections[i];
        let name_off = strings.insert(pair.0.as_slice());
        let data_off = sec_data.len();
        append_bytes(&mut sec_data, pair.1.as_slice());
        name_offsets.push(name_off as u32);
        data_offsets.push(data_off as u32);
        lengths.push(pair.1.len() as u32);
        proof {
            assert(strings@ == table_blob(sv, i + 1));
            assert(name_off as int == name_offset(sv, i as int));
        }
        i = i + 1;
    }

    let table_len = strings.len();
    proof {
        assert(strings@ == table_blob(sv, sv.len() as int));
        assert(sec_data@ == payload(sv, sv.len() as int));
    }
    let string_tbl_offset: u32 = (SMX_HEADER_LEN + SMX_SECTION_INFO_LEN * n) as u32;
    let data_offset: u32 = string_tbl_offset + (table_len as u32);
    let image: u32 = data_offset + (sec_data.len() as u32);
    let comp = compression_level != CompressionLevel::NoCompression;
    let level = compression_level.level();
    let uncompressed_len = sec_data.len();

    let disk_sec_data: Vec<u8> = if comp {
        deflate_zlib(&sec_data, level)
    } else {
        sec_data
    };

    if (disk_sec_data.len() as u64) > (u32::MAX as u64) - (data_offset as u64) {
        proof {
            assert(comp);
        }
        return None;
    }
    let disk: u32 = data_offset + (disk_sec_data.len() as u32);

    let mut w: Vec<u8> = Vec::new();
    put_u32(&mut w, e, FILE_MAGIC);
    put_u16(&mut w, e, TARGET_VERSION);
    w.push(if comp { 1 } else { 0 });
    put_u32(&mut w, e, disk);
    put_u32(&mut w, e, image);
    w.push(n as u8);
    put_u32(&mut w, e, string_tbl_offset);
    put_u32(&mut w, e, data_offset);
    proof {
        assert(w@ =~= header_bytes(sv, e, comp, disk_sec_data@.len() as int));
    }
    let ghost header = header_bytes(sv, e, comp, disk_sec_data@.len() as int);

    let mut k: usize = 0;
    while k < n
        invariant
            sv == sections_view(sections@),
            n == sections@.len(),
            n <= 255,
            image_size(sv) <= u32::MAX,
            0 <= k <= n,
            name_offsets@.len() == n,
            data_offsets@.len() == n,
            lengths@.len() == n,
            forall|j: int| 0 <= j < n ==> name_offsets@[j] == name_offset(sv, j) as u32,
            forall|j: int| 0 <= j < n ==> data_offsets@[j] == payload(sv, j).len() as u32,
            forall|j: int| 0 <= j < n ==> lengths@[j] == sv[j].1.len() as u32,
            data_offset == payload_offset(sv) as u32,
            payload_offset(sv) <= u32::MAX,
            w@ == header + info_records(sv, e, k as int),
            header == header_bytes(sv, e, comp, disk_sec_data@.len() as int),
        decreases n - k,
    {
        proof {
            lemma_payload_prefix(sv, k as int, sv.len() as int);
            lemma_payload_prefix(sv, k + 1, sv.len() as int);
        }
        put_u32(&mut w, e, name_offsets[k]);
        put_u32(&mut w, e, data_offset + data_offsets[k]);
        put_u32(&mut w, e, lengths[k]);
        proof {
            assert((data_offset + data_offsets@[k as int]) as u32 == (payload_offset(sv) + payload(
                sv,
                k as int,
            ).len()) as u32);
            assert(w@ =~= header + info_records(sv, e, k as int) + info_record(sv, e, k as int));
            assert(info_records(sv, e, k + 1) == info_records(sv, e, k as int) + info_record(
                sv,
                e,
                k as int,
            ));
            assert(w@ =~= header + info_records(sv, e, k + 1));
        }
        k = k + 1;
    }

    strings.write_to(&mut w);
    append_bytes(&mut w, disk_sec_data.as_slice());
    proof {
        assert(w@ =~= file_bytes(sv, e, comp, disk_sec_data@));
        lemma_file_round_trip(sv, e, comp, disk_sec_data@);
    }
    Some(w)
}

/// Writing no pairs leaves a sink as it was.
proof fn lemma_upsert_all_empty(m: Seq<(Seq<u8>, Seq<u8>)>)
    ensures
        spec_upsert_all(m, Seq::empty()) == m,
{
}

/// A single unreadable position inside the range refutes the whole read.
proof fn lemma_log_read_not_ok(file: Seq<u8>, infl: Seq<u8>, d_off: int, pos: int, n: int, p: int)
    requires
        pos <= p < pos + n,
        !log_in_range(file, infl, d_off, p),
    ensures
        !log_read_ok(file, Option::Some(infl), d_off, pos, n),
{
    if log_range_ok(file, infl, d_off, pos, n) {
        assert(log_in_range(file, infl, d_off, p));
        assert(false);
    }
}

/// Trait for objects which represent a section in an SMX file.
pub trait Section {
    /// The bytes this section serializes to.
    spec fn bytes(&self) -> Seq<u8>;

    /// Write this section's data to a vector.
    fn write_to(&self, data: &mut Vec<u8>)
        ensures
            final(data)@ == old(data)@ + self.bytes(),
    ;
}

impl Section for Vec<u8> {
    open spec fn bytes(&self) -> Seq<u8> {
        self@
    }

    fn write_to(&self, data: &mut Vec<u8>) {
        append_bytes(data, self.as_slice())
    }
}

/// Structure that guarantees that it is holding a slice of `(name, data)`
/// pairs with no duplicate names.
pub struct BorrowedMap<'a> {
    inner: &'a [(Vec<u8>, Vec<u8>)],
}

impl<'a> View for BorrowedMap<'a> {
    type V = Seq<(Seq<u8>, Seq<u8>)>;

    closed spec fn view(&self) -> Seq<(Seq<u8>, Seq<u8>)> {
        sections_view(self.inner@)
    }
}

impl<'a> BorrowedMap<'a> {
    /// Create a new [`BorrowedMap`] without checking for duplicate names:
    /// the caller asserts, unchecked at run time, that `inner` holds none.
    ///
    /// See [`Self::new`] for a version that does check for duplicate names
    /// beforehand, but is also very expensive.
    pub fn new_unchecked(inner: &'a [(Vec<u8>, Vec<u8>)]) -> (r: Self)
        requires
            names_unique(sections_view(inner@)),
        ensures
            r@ == sections_view(inner@),
            names_unique(r@),
    {
        BorrowedMap { inner }
    }

    /// The slice of pairs this map holds.
    pub fn as_slice(&self) -> (r: &'a [(Vec<u8>, Vec<u8>)])
        ensures
            sections_view(r@) == self@,
    {
        self.inner
    }

    /// The number of pairs this map holds.
    pub fn len(&self) -> (r: usize)
        ensures
            r == self@.len(),
    {
        self.inner.len()
    }

    /// Create an iterator over this map's pairs.
    pub fn iter(&self) -> (r: BorrowedMapIter<'a>)
        ensures
            sections_view(r.remaining_slice()@) == self@,
            r.spec_pos() == 0,
    {
        BorrowedMapIter { inner: self.inner, pos: 0 }
    }

    /// Try to create a new [`BorrowedMap`], returning the pair of indices
    /// in the slice that hold identical names, if there are any.
    ///
    /// # Note
    /// **This function is very expensive.**  The worst case (when there
    /// are indeed no duplicate names) compares every pair of entries.
    /// Consider using [`Self::new_unchecked`] instead if you are sure
    /// there can never be pairs with duplicate names.
    pub fn new(inner: &'a [(Vec<u8>, Vec<u8>)]) -> (r: Result<Self, (usize, usize)>)
        ensures
            ({
                let sv = sections_view(inner@);
                match r {
                    Ok(m) => m@ == sv && names_unique(sv),
                    Err((a, b)) => {
                        &&& 0 <= a < b < sv.len()
                        &&& sv[a as int].0 == sv[b as int].0
                        &&& forall|c: int, d: int|
                            0 <= c < d < sv.len() && (c < a || (c == a && d < b)) ==> sv[c].0
                                != sv[d].0
                    },
                }
            }),
    {
        let ghost sv = sections_view(inner@);
        let n = inner.len();
        let mut a: usize = 0;
        while a < n
            invariant
                sv == sections_view(inner@),
                n == inner@.len(),
                0 <= a <= n,
                forall|c: int, d: int| 0 <= c < d < n && c < a ==> sv[c].0 != sv[d].0,
            decreases n - a,
        {
            let mut b: usize = a + 1;
            while b < n
                invariant
                    sv == sections_view(inner@),
                    n == inner@.len(),
                    0 <= a < n,
                    a < b <= n,
                    forall|c: int, d: int| 0 <= c < d < n && c < a ==> sv[c].0 != sv[d].0,
                    forall|d: int| a < d < b ==> sv[a as int].0 != sv[d].0,
                decreases n - b,
            {
                proof {
                    assert(sv[a as int].0 == inner@[a as int].0@);
                    assert(sv[b as int].0 == inner@[b as int].0@);
                }
                if crate::smx_table::bytes_eq(inner[a].0.as_slice(), inner[b].0.as_slice()) {
                    return Err((a, b));
                }
                b = b + 1;
            }
            a = a + 1;
        }
        Ok(BorrowedMap { inner })
    }
}

/// Iterator over [`BorrowedMap`] pairs.
pub struct BorrowedMapIter<'a> {
    inner: &'a [(Vec<u8>, Vec<u8>)],
    pos: usize,
}

impl<'a> BorrowedMapIter<'a> {
    /// The slice this iterator walks.
    pub closed spec fn remaining_slice(&self) -> &'a [(Vec<u8>, Vec<u8>)] {
        self.inner
    }

    /// How many pairs were already handed out.
    pub closed spec fn spec_pos(&self) -> int {
        self.pos as int
    }

    /// Yield the next pair, or nothing once every pair was handed out.
    pub fn next(&mut self) -> (r: Option<(&'a Vec<u8>, &'a Vec<u8>)>)
        ensures
            final(self).remaining_slice() == old(self).remaining_slice(),
            match r {
                Some((k, v)) => {
                    &&& old(self).spec_pos() < old(self).remaining_slice()@.len()
                    &&& k@ == old(self).remaining_slice()@[old(self).spec_pos()].0@
                    &&& v@ == old(self).remaining_slice()@[old(self).spec_pos()].1@
                    &&& final(self).spec_pos() == old(self).spec_pos() + 1
                },
                None => {
                    &&& old(self).spec_pos() >= old(self).remaining_slice()@.len()
                    &&& final(self).spec_pos() == old(self).spec_pos()
                },
            },
    {
        if self.pos < self.inner.len() {
            let pair = &self.inner[self.pos];
            self.pos = self.pos + 1;
            Some((&pair.0, &pair.1))
        } else {
            None
        }
    }
}

/// The outcome of [`infer_endianness`]: the inferred order, the raw magic
/// bytes when neither order matches, or a truncation error.
pub open spec fn spec_infer(file: Seq<u8>) -> Result<Result<Endianness, [u8; 4]>, SmxError> {
    match spec_magic(file) {
        Ok(e) => Ok(Ok(e)),
        Err(SmxError::Magic(m)) => Ok(Err(m)),
        Err(er) => Err(er),
    }
}

/// Read the first four bytes as the SMX magic number, inferring the
/// [`Endianness`] that was used to encode it.  Hands back the raw bytes
/// when neither byte order matches, and an error when fewer than four
/// bytes are there.
pub fn infer_endianness(bytes: &[u8]) -> (r: Result<Result<Endianness, [u8; 4]>, SmxError>)
    ensures
        r == spec_infer(bytes@),
{
    if bytes.len() < 4 {
        return Err(SmxError::Truncated);
    }
    if crate::endian::get_u32(bytes, 0, Endianness::Little) == FILE_MAGIC {
        Ok(Ok(Endianness::Little))
    } else if crate::endian::get_u32(bytes, 0, Endianness::Big) == FILE_MAGIC {
        Ok(Ok(Endianness::Big))
    } else {
        let m: [u8; 4] = [bytes[0], bytes[1], bytes[2], bytes[3]];
        proof {
            let ghost ma: [u8; 4] = [bytes@[0], bytes@[1], bytes@[2], bytes@[3]];
            assert(m =~= ma);
        }
        Ok(Err(m))
    }
}

/// The header fields of `bytes` decoded in order `e`, or the first header
/// error.
fn parse_header(bytes: &[u8], e: Endianness) -> (r: Result<SmxHeader, SmxError>)
    ensures
        r == spec_parse_header(bytes@, e),
{
    if bytes.len() < 6 {
        return Err(SmxError::Truncated);
    }
    let version = crate::endian::get_u16(bytes, 4, e);
    if version != TARGET_VERSION {
        return Err(SmxError::Version(version));
    }
    if bytes.len() < 7 {
        return Err(SmxError::Truncated);
    }
    let flag = bytes[6];
    if flag != 0 && flag != 1 {
        return Err(SmxError::Compression(flag));
    }
    if bytes.len() < 24 {
        return Err(SmxError::Truncated);
    }
    Ok(
        SmxHeader {
            compressed: flag == 1,
            disk_size: crate::endian::get_u32(bytes, 7, e),
            image_size: crate::endian::get_u32(bytes, 11, e),
            n_sections: bytes[15],
            string_table_offset: crate::endian::get_u32(bytes, 16, e),
            payload_offset: crate::endian::get_u32(bytes, 20, e),
        },
    )
}

/// A seek/read facade over one file whose payload region may be stored
/// compressed: positions before the payload offset read the raw file,
/// later positions read the decompressed buffer.
struct MaybeUncompressedReader {
    data: Option<Vec<u8>>,
    data_offset: u32,
    pos: u64,
}

impl MaybeUncompressedReader {
    /// The decompressed payload this reader serves, if any.
    spec fn data_view(&self) -> Option<Seq<u8>> {
        match self.data {
            Option::None => Option::None,
            Option::Some(v) => Option::Some(v@),
        }
    }

    /// Seek to an absolute position.
    fn seek_start(&mut self, p: u64)
        ensures
            final(self).data_view() == old(self).data_view(),
            final(self).data_offset == old(self).data_offset,
            final(self).pos == p,
    {
        self.pos = p;
    }

    /// Seek to the end of the stream and return the position: the total
    /// logical length, reduced to 64 bits.
    fn seek_end(&mut self, file: &[u8]) -> (r: u64)
        ensures
            final(self).data_view() == old(self).data_view(),
            final(self).data_offset == old(self).data_offset,
            r == spec_actual_len(file@, old(self).data_view(), old(self).data_offset as int),
            final(self).pos == r,
    {
        let r = match &self.data {
            Option::None => file.len() as u64,
            Option::Some(infl) => {
                (((self.data_offset as u128) + (infl.len() as u128))
                    % 0x1_0000_0000_0000_0000u128) as u64
            },
        };
        self.pos = r;
        r
    }

    /// Read exactly `n` bytes at the current position, advancing past
    /// them, or nothing when some position of that range cannot be read.
    fn read_exact(&mut self, file: &[u8], n: usize) -> (r: Option<Vec<u8>>)
        requires
            old(self).pos <= u32::MAX,
            n <= u32::MAX,
        ensures
            final(self).data_view() == old(self).data_view(),
            final(self).data_offset == old(self).data_offset,
            match r {
                Some(v) => {
                    &&& log_read_ok(
                        file@,
                        old(self).data_view(),
                        old(self).data_offset as int,
                        old(self).pos as int,
                        n as int,
                    )
                    &&& v@ == log_read(
                        file@,
                        old(self).data_view(),
                        old(self).data_offset as int,
                        old(self).pos as int,
                        n as int,
                    )
                    &&& final(self).pos == old(self).pos + n
                },
                None => {
                    &&& !log_read_ok(
                        file@,
                        old(self).data_view(),
                        old(self).data_offset as int,
                        old(self).pos as int,
                        n as int,
                    )
                    &&& final(self).pos == old(self).pos
                },
            },
    {
        let mut out: Vec<u8> = Vec::new();
        let mut k: usize = 0;
        while k < n
            invariant
                self == old(self),
                self.pos <= u32::MAX,
                n <= u32::MAX,
                0 <= k <= n,
                out@.len() == k,
                forall|j: int|
                    0 <= j < k ==> out@[j] == log_byte(
                        file@,
                        self.data_view(),
                        self.data_offset as int,
                        self.pos + j,
                    ),
                log_read_ok(file@, self.data_view(), self.data_offset as int, self.pos as int, k as int),
            decreases n - k,
        {
            let p: u64 = self.pos + (k as u64);
            let b: u8 = match &self.data {
                Option::None => {
                    if p >= (file.len() as u64) {
                        return Option::None;
                    }
                    file[p as usize]
                },
                Option::Some(infl) => {
                    if p < (self.data_offset as u64) {
                        if p >= (file.len() as u64) {
                            proof {
                                lemma_log_read_not_ok(file@, infl@, old(self).data_offset as int, old(self).pos as int, n as int, p as int);
                            }
                            return Option::None;
                        }
                        file[p as usize]
                    } else {
                        let q = p - (self.data_offset as u64);
                        if q >= (infl.len() as u64) {
                            proof {
                                lemma_log_read_not_ok(file@, infl@, old(self).data_offset as int, old(self).pos as int, n as int, p as int);
                            }
                            return Option::None;
                        }
                        infl[q as usize]
                    }
                },
            };
            out.push(b);
            k = k + 1;
        }
        proof {
            assert(out@ =~= log_read(
                file@,
                self.data_view(),
                self.data_offset as int,
                self.pos as int,
                n as int,
            ));
        }
        self.pos = self.pos + (n as u64);
        Some(out)
    }
}

/// Read an SMX file from its bytes _without_ also reading the magic
/// number, requiring an explicit [`Endianness`] annotation.  The bytes are
/// still the whole file: the four magic bytes are skipped, not absent.
///
/// Resolved sections are handed to `smx` one by one, in section-info
/// order; on an error the sections delivered before it stay.
///
/// This is called from [`read_from`]; in most cases it is a good idea to
/// use that function instead.  However, you may also use the
/// [`infer_endianness`] function to pick the order manually.
#[verifier::rlimit(100)]
pub fn read_no_magic_from(e: Endianness, bytes: &[u8], smx: &mut crate::Smx) -> (r: Result<
    (),
    SmxError,
>)
    ensures
        final(smx)@ == spec_upsert_all(old(smx)@, spec_delivered_no_magic(bytes@, e)),
        old(smx).wf() ==> final(smx).wf(),
        match r {
            Ok(_) => spec_read_no_magic(bytes@, e) == Ok::<_, SmxError>(
                (spec_delivered_no_magic(bytes@, e), e),
            ),
            Err(er) => spec_read_no_magic(bytes@, e) == Err::<
                (Seq<(Seq<u8>, Seq<u8>)>, Endianness),
                _,
            >(er),
        },
{
    let ghost file = bytes@;
    let h = match parse_header(bytes, e) {
        Ok(h) => h,
        Err(er) => {
            proof {
                lemma_upsert_all_empty(old(smx)@);
            }
            return Err(er);
        },
    };

    if h.string_table_offset > h.payload_offset {
        proof {
            lemma_upsert_all_empty(old(smx)@);
        }
        return Err(SmxError::Truncated);
    }
    let tbl: CStrTable;
    if h.string_table_offset == h.payload_offset {
        tbl = CStrTable::from_blob(Vec::new());
        proof {
            assert(tbl@ =~= Seq::<u8>::empty());
        }
    } else {
        if (h.payload_offset as u64) > (bytes.len() as u64) {
            proof {
                lemma_upsert_all_empty(old(smx)@);
            }
            return Err(SmxError::Truncated);
        }
        let st = h.string_table_offset as usize;
        let dn = h.payload_offset as usize;
        let mut blob: Vec<u8> = Vec::new();
        append_bytes(&mut blob, &bytes[st..dn]);
        tbl = CStrTable::from_blob(blob);
    }
    proof {
        assert(spec_table(file, h) == Ok::<Seq<u8>, SmxError>(tbl@));
    }

    let data: Option<Vec<u8>> = if !h.compressed {
        Option::None
    } else {
        let start: usize = if (h.payload_offset as u64) <= (bytes.len() as u64) {
            h.payload_offset as usize
        } else {
            bytes.len()
        };
        let clen = bytes.len() - start;
        let ghost comp_spec: Seq<u8> = if h.payload_offset <= file.len() {
            file.subrange(h.payload_offset as int, file.len() as int)
        } else {
            Seq::empty()
        };
        proof {
            assert(bytes@.subrange(start as int, bytes@.len() as int) =~= comp_spec);
            assert(clen == comp_spec.len());
        }
        if (clen as u128) + (h.payload_offset as u128) != (h.disk_size as u128) {
            proof {
                assert(spec_payload(file, h) == Err::<Option<Seq<u8>>, SmxError>(
                    SmxError::NotAtDiskSize(clen),
                ));
                lemma_upsert_all_empty(old(smx)@);
            }
            return Err(SmxError::NotAtDiskSize(clen));
        }
        let blen = bytes.len();
        let chunk = &bytes[start..blen];
        proof {
            assert(chunk@ =~= comp_spec);
        }
        match crate::zlib::inflate_zlib(chunk) {
            Err(_) => {
                proof {
                    assert(spec_payload(file, h) == Err::<Option<Seq<u8>>, SmxError>(
                        SmxError::Decompress,
                    ));
                    lemma_upsert_all_empty(old(smx)@);
                }
                return Err(SmxError::Decompress);
            },
            Ok(v) => Option::Some(v),
        }
    };
    let ghost dv: Option<Seq<u8>> = match data {
        Option::None => Option::None,
        Option::Some(ref v) => Option::Some(v@),
    };
    proof {
        assert(spec_payload(file, h) == Ok::<Option<Seq<u8>>, SmxError>(dv));
    }

    let mut rd = MaybeUncompressedReader { data, data_offset: h.payload_offset, pos: 0 };
    let actual = rd.seek_end(bytes);
    if actual != (h.image_size as u64) {
        proof {
            lemma_upsert_all_empty(old(smx)@);
        }
        return Err(SmxError::NotAtImageSize { declared: h.image_size, actual });
    }

    rd.seek_start(SMX_HEADER_LEN as u64);
    let n = h.n_sections;
    let ghost tblv = tbl@;
    let ghost d_off = h.payload_offset as int;
    let ghost full = spec_sections(file, dv, d_off, tblv, e, n as int, 0);
    proof {
        assert(spec_delivered_no_magic(file, e) == full.0);
        assert(spec_read_no_magic(file, e) == (match full.1 {
            Option::Some(er) => Err::<(Seq<(Seq<u8>, Seq<u8>)>, Endianness), SmxError>(er),
            Option::None => Ok::<(Seq<(Seq<u8>, Seq<u8>)>, Endianness), SmxError>((full.0, e)),
        }));
    }
    let ghost mut delivered: Seq<(Seq<u8>, Seq<u8>)> = Seq::empty();
    let mut i: u8 = 0;
    while i < n
        invariant
            0 <= i <= n,
            rd.data_view() == dv,
            rd.data_offset == h.payload_offset,
            d_off == h.payload_offset as int,
            rd.pos == (SMX_HEADER_LEN as u64) + 12 * (i as u64),
            tblv == tbl@,
            full == spec_sections(file, dv, d_off, tblv, e, n as int, 0),
            file == bytes@,
            ({
                let rem = spec_sections(file, dv, d_off, tblv, e, n as int, i as int);
                full.0 == delivered + rem.0 && full.1 == rem.1
            }),
            smx@ == spec_upsert_all(old(smx)@, delivered),
            old(smx).wf() ==> smx.wf(),
            spec_delivered_no_magic(file, e) == full.0,
            spec_read_no_magic(file, e) == (match full.1 {
                Option::Some(er) => Err::<(Seq<(Seq<u8>, Seq<u8>)>, Endianness), SmxError>(er),
                Option::None => Ok::<(Seq<(Seq<u8>, Seq<u8>)>, Endianness), SmxError>((full.0, e)),
            }),
        decreases n - i,
    {
        let ghost rem = spec_sections(file, dv, d_off, tblv, e, n as int, i as int);
        let ghost rec_pos = (SMX_HEADER_LEN as int) + (SMX_SECTION_INFO_LEN as int) * (i as int);
        proof {
            assert(rd.pos as int == rec_pos);
        }
        let rec = match rd.read_exact(bytes, 4) {
            Option::Some(v) => v,
            Option::None => {
                proof {
                    assert(full.0 =~= delivered);
                }
                return Err(SmxError::Truncated);
            },
        };
        let name_off = crate::endian::get_u32(rec.as_slice(), 0, e);
        proof {
            assert(rec@.subrange(0, 4) =~= log_read(file, dv, d_off, rec_pos, 4));
        }
        let name = match tbl.get_c_string(name_off as usize) {
            Option::Some(v) => v,
            Option::None => {
                proof {
                    assert(full.0 =~= delivered);
                }
                return Err(
                    SmxError::SectionNameOffset {
                        section: i,
                        name_offset: name_off,
                        string_table_size: tbl.len(),
                    },
                );
            },
        };
        let rec2 = match rd.read_exact(bytes, 8) {
            Option::Some(v) => v,
            Option::None => {
                proof {
                    assert(full.0 =~= delivered);
                }
                return Err(SmxError::Truncated);
            },
        };
        let sec_off = crate::endian::get_u32(rec2.as_slice(), 0, e);
        let sec_len = crate::endian::get_u32(rec2.as_slice(), 4, e);
        proof {
            assert(rec2@.subrange(0, 4) =~= log_read(file, dv, d_off, rec_pos + 4, 4));
            assert(rec2@.subrange(4, 8) =~= log_read(file, dv, d_off, rec_pos + 8, 4));
        }
        let pos_last = rd.pos;
        rd.seek_start(sec_off as u64);
        let data_buf = match rd.read_exact(bytes, sec_len as usize) {
            Option::Some(v) => v,
            Option::None => {
                proof {
                    assert(full.0 =~= delivered);
                }
                return Err(SmxError::Truncated);
            },
        };
        rd.seek_start(pos_last);
        let ghost namev = name@;
        let ghost datav = data_buf@;
        proof {
            crate::smx_table::lemma_first_nul_bounds(tblv, name_off as int);
            assert(nul_free(namev)) by {
                assert(forall|j: int|
                    0 <= j < namev.len() ==> namev[j] == tblv[name_off + j] && tblv[name_off + j]
                        != 0);
            }
        }
        smx.write_section(name, data_buf);
        proof {
            let pair = (namev, datav);
            let rem2 = spec_sections(file, dv, d_off, tblv, e, n as int, i + 1);
            assert(rem.0 == seq![pair] + rem2.0);
            lemma_upsert_all_push(old(smx)@, delivered, pair);
            assert(delivered.push(pair) =~= delivered + seq![pair]);
            delivered = delivered.push(pair);
            assert(full.0 =~= delivered + rem2.0);
        }
        i = i + 1;
    }
    proof {
        assert(full.0 =~= delivered);
    }
    Ok(())
}

/// Read an SMX file from its bytes, inferring its endianness from the
/// magic number.
///
/// Resolved sections are handed to `smx` one by one, in section-info
/// order; on an error the sections delivered before it stay.
///
/// The endianness inference is done through the [`infer_endianness`]
/// function.
pub fn read_from(bytes: &[u8], smx: &mut crate::Smx) -> (r: Result<Endianness, SmxError>)
    ensures
        final(smx)@ == spec_upsert_all(old(smx)@, spec_delivered(bytes@)),
        old(smx).wf() ==> final(smx).wf(),
        match r {
            Ok(e) => spec_read(bytes@) == Ok::<_, SmxError>((spec_delivered(bytes@), e)),
            Err(er) => spec_read(bytes@) == Err::<(Seq<(Seq<u8>, Seq<u8>)>, Endianness), _>(er),
        },
{
    let e = match infer_endianness(bytes) {
        Err(er) => {
            return Err(er);
        },
        Ok(Err(m)) => {
            return Err(SmxError::Magic(m));
        },
        Ok(Ok(e)) => e,
    };
    match read_no_magic_from(e, bytes, smx) {
        Ok(_) => Ok(e),
        Err(er) => Err(er),
    }
}

} // verus!

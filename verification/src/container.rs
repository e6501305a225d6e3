//! The on-disk container: a fixed header, a segment table, and the segment
//! bytes themselves.
//!
//! Parsing slices the executable segments (concatenated, in file order) into
//! a code segment and the remaining segments into a data segment; serializing
//! emits the symmetric two-segment layout, so that parsing a serialized
//! container gives the code and data bytes back unchanged.

use vstd::prelude::*;

use crate::bytes::{le32_at, le_bytes, lemma_le32_of_le_bytes, push_all, push_le32};
use crate::machine::VM;

verus! {

/// A malformed container, detected before any execution begins.
#[derive(Debug, Clone, Copy, PartialEq, Eq, Structural)]
pub enum FormatError {
    /// Fewer bytes than the smallest well-formed container.
    TooShort,
    /// The first four bytes are not the fixed magic number.
    BadMagic,
    /// Bytes four and five are not the fixed version.
    BadVersion,
    /// A segment table entry, or the byte range it names, runs outside the
    /// container.
    TruncatedSegment,
}

/// The result of a parse: the concatenated code bytes and the concatenated
/// data bytes, or the first format error encountered.
pub type ParseResult = Result<(Seq<u8>, Seq<u8>), FormatError>;

/// Walks `n` segment table entries starting at `pos`, appending each entry's
/// byte range to `code` (executable entries) or `data` (all others).
pub open spec fn parse_entries(
    bytes: Seq<u8>,
    pos: int,
    n: nat,
    code: Seq<u8>,
    data: Seq<u8>,
) -> ParseResult
    decreases n,
{
    if n == 0 {
        Ok((code, data))
    } else if pos + 2 > bytes.len() {
        Err(FormatError::TruncatedSegment)
    } else {
        let executable = bytes[pos];
        let name_len = bytes[pos + 1] as int;
        let field_pos = pos + 2 + name_len;
        if field_pos + 8 > bytes.len() {
            Err(FormatError::TruncatedSegment)
        } else {
            let off = le32_at(bytes, field_pos) as int;
            let len = le32_at(bytes, field_pos + 4) as int;
            if off + len > bytes.len() {
                Err(FormatError::TruncatedSegment)
            } else {
                let seg = bytes.subrange(off, off + len);
                if executable == 1 {
                    parse_entries(bytes, field_pos + 8, (n - 1) as nat, code + seg, data)
                } else {
                    parse_entries(bytes, field_pos + 8, (n - 1) as nat, code, data + seg)
                }
            }
        }
    }
}

/// What parsing a container yields: the header is checked field by field,
/// then the `segment_count` entries starting at byte 9 are walked.
pub open spec fn parse_spec(bytes: Seq<u8>) -> ParseResult {
    if bytes.len() < 32 {
        Err(FormatError::TooShort)
    } else if !(bytes[0] == 0x1e && bytes[1] == 0x55 && bytes[2] == 0xc6 && bytes[3] == 0xb3) {
        Err(FormatError::BadMagic)
    } else if !(bytes[4] == 0 && bytes[5] == 0) {
        Err(FormatError::BadVersion)
    } else {
        parse_entries(bytes, 9, bytes[8] as nat, Seq::empty(), Seq::empty())
    }
}

/// The spec-level view of an executable parse result.
pub open spec fn parse_result_view(r: Result<(Vec<u8>, Vec<u8>), FormatError>) -> ParseResult {
    match r {
        Ok(p) => Ok((p.0@, p.1@)),
        Err(e) => Err(e),
    }
}

/// Splits a container into its code bytes and its data bytes.
pub fn parse(bytes: &Vec<u8>) -> (r: Result<(Vec<u8>, Vec<u8>), FormatError>)
    ensures
        parse_result_view(r) == parse_spec(bytes@),
{
    if bytes.len() < 32 {
        return Err(FormatError::TooShort);
    }
    if !(bytes[0] == 0x1e && bytes[1] == 0x55 && bytes[2] == 0xc6 && bytes[3] == 0xb3) {
        return Err(FormatError::BadMagic);
    }
    if !(bytes[4] == 0 && bytes[5] == 0) {
        return Err(FormatError::BadVersion);
    }
    let count = bytes[8];
    let mut code: Vec<u8> = Vec::new();
    let mut data: Vec<u8> = Vec::new();
    let mut pos: usize = 9;
    let mut i: u8 = 0;
    while i < count
        invariant
            i <= count,
            pos <= bytes@.len(),
            32 <= bytes@.len(),
            parse_entries(bytes@, pos as int, (count - i) as nat, code@, data@) == parse_spec(
                bytes@,
            ),
        decreases count - i,
    {
        let rem = bytes.len() - pos;
        if rem < 2 {
            return Err(FormatError::TruncatedSegment);
        }
        let executable = bytes[pos];
        let name_len = bytes[pos + 1] as usize;
        if rem - 2 < name_len + 8 {
            return Err(FormatError::TruncatedSegment);
        }
        let field_pos = pos + 2 + name_len;
        let off = VM::get_u32(bytes.as_slice(), field_pos);
        let len = VM::get_u32(bytes.as_slice(), field_pos + 4);
        if (off as u64) + (len as u64) > (bytes.len() as u64) {
            return Err(FormatError::TruncatedSegment);
        }
        let off = off as usize;
        let len = len as usize;
        let ghost seg = bytes@.subrange(off as int, off as int + len as int);
        let mut j: usize = 0;
        if executable == 1 {
            let ghost code0 = code@;
            while j < len
                invariant
                    j <= len,
                    off + len <= bytes@.len(),
                    bytes@.len() <= usize::MAX,
                    code@ == code0 + bytes@.subrange(off as int, off as int + j as int),
                decreases len - j,
            {
                code.push(bytes[off + j]);
                j = j + 1;
                assert(code@ =~= code0 + bytes@.subrange(off as int, off as int + j as int));
            }
        } else {
            let ghost data0 = data@;
            while j < len
                invariant
                    j <= len,
                    off + len <= bytes@.len(),
                    bytes@.len() <= usize::MAX,
                    data@ == data0 + bytes@.subrange(off as int, off as int + j as int),
                decreases len - j,
            {
                data.push(bytes[off + j]);
                j = j + 1;
                assert(data@ =~= data0 + bytes@.subrange(off as int, off as int + j as int));
            }
        }
        pos = field_pos + 8;
        i = i + 1;
    }
    Ok((code, data))
}

/// The fixed eight-byte header: magic number, version, and the two unused
/// compression bytes.
pub open spec fn header_bytes() -> Seq<u8> {
    seq![0x1eu8, 0x55u8, 0xc6u8, 0xb3u8, 0u8, 0u8, 0u8, 0u8]
}

/// The fixed two-entry segment table for the given code and data lengths:
/// one executable segment named `.code` at offset 39, one data segment named
/// `.data` right after it. The count byte and the table span 31 bytes, so
/// segment bytes start at offset 39.
pub open spec fn table_bytes(code_len: u32, data_len: u32) -> Seq<u8> {
    seq![2u8, 1u8, 5u8, 0x2eu8, 0x63u8, 0x6fu8, 0x64u8, 0x65u8] + le_bytes(39) + le_bytes(code_len)
        + seq![0u8, 5u8, 0x2eu8, 0x64u8, 0x61u8, 0x74u8, 0x61u8] + le_bytes(
        (39 + code_len) as u32,
    ) + le_bytes(data_len)
}

/// What serializing yields: header, table, code bytes, data bytes.
pub open spec fn serialize_spec(code: Seq<u8>, data: Seq<u8>) -> Seq<u8> {
    header_bytes() + table_bytes(code.len() as u32, data.len() as u32) + code + data
}

/// Wraps code and data bytes into a container file image.
pub fn serialize(code: &Vec<u8>, data: &Vec<u8>) -> (r: Vec<u8>)
    requires
        code@.len() + 39 <= u32::MAX,
        data@.len() <= u32::MAX,
    ensures
        r@ == serialize_spec(code@, data@),
{
    let mut out: Vec<u8> = Vec::new();
    out.push(0x1e);
    out.push(0x55);
    out.push(0xc6);
    out.push(0xb3);
    out.push(0);
    out.push(0);
    out.push(0);
    out.push(0);
    assert(out@ =~= header_bytes());
    out.push(2);
    out.push(1);
    out.push(5);
    out.push(0x2e);
    out.push(0x63);
    out.push(0x6f);
    out.push(0x64);
    out.push(0x65);
    push_le32(&mut out, 39);
    push_le32(&mut out, code.len() as u32);
    out.push(0);
    out.push(5);
    out.push(0x2e);
    out.push(0x64);
    out.push(0x61);
    out.push(0x74);
    out.push(0x61);
    push_le32(&mut out, 39 + code.len() as u32);
    push_le32(&mut out, data.len() as u32);
    assert(out@ =~= header_bytes() + table_bytes(code@.len() as u32, data@.len() as u32));
    push_all(&mut out, code);
    push_all(&mut out, data);
    assert(out@ =~= serialize_spec(code@, data@));
    out
}

/// The codec is a symmetric pair: parsing a serialized container gives the
/// code and data bytes back, for any byte sequences whose lengths fit the
/// 32-bit fields of the segment table.
pub proof fn lemma_parse_serialize_round_trip(code: Seq<u8>, data: Seq<u8>)
    requires
        code.len() + 39 <= u32::MAX,
        data.len() <= u32::MAX,
    ensures
        parse_spec(serialize_spec(code, data)) == Ok::<(Seq<u8>, Seq<u8>), FormatError>(
            (code, data),
        ),
{
    let bytes = serialize_spec(code, data);
    let clen = code.len() as u32;
    let dlen = data.len() as u32;
    assert(bytes.len() == 39 + code.len() + data.len());
    lemma_le32_of_le_bytes(39);
    lemma_le32_of_le_bytes(clen);
    lemma_le32_of_le_bytes((39 + clen) as u32);
    lemma_le32_of_le_bytes(dlen);
    // Header fields.
    assert(bytes[0] == 0x1e && bytes[1] == 0x55 && bytes[2] == 0xc6 && bytes[3] == 0xb3);
    assert(bytes[4] == 0 && bytes[5] == 0);
    assert(bytes[8] == 2);
    // First entry: executable, name ".code", offset 39, length of the code.
    assert(bytes[9] == 1 && bytes[10] == 5);
    assert(bytes[16] == le_bytes(39)[0] && bytes[17] == le_bytes(39)[1] && bytes[18] == le_bytes(
        39,
    )[2] && bytes[19] == le_bytes(39)[3]);
    assert(le32_at(bytes, 16) == 39);
    assert(bytes[20] == le_bytes(clen)[0] && bytes[21] == le_bytes(clen)[1] && bytes[22]
        == le_bytes(clen)[2] && bytes[23] == le_bytes(clen)[3]);
    assert(le32_at(bytes, 20) == clen);
    assert(bytes.subrange(39, 39 + code.len() as int) =~= code);
    // Second entry: data, name ".data", offset right after the code bytes.
    assert(bytes[24] == 0 && bytes[25] == 5);
    assert(bytes[31] == le_bytes((39 + clen) as u32)[0] && bytes[32] == le_bytes(
        (39 + clen) as u32,
    )[1] && bytes[33] == le_bytes((39 + clen) as u32)[2] && bytes[34] == le_bytes(
        (39 + clen) as u32,
    )[3]);
    assert(le32_at(bytes, 31) == 39 + clen);
    assert(bytes[35] == le_bytes(dlen)[0] && bytes[36] == le_bytes(dlen)[1] && bytes[37]
        == le_bytes(dlen)[2] && bytes[38] == le_bytes(dlen)[3]);
    assert(le32_at(bytes, 35) == dlen);
    assert(bytes.subrange(39 + code.len() as int, 39 + code.len() as int + data.len() as int)
        =~= data);
    assert(Seq::<u8>::empty() + code =~= code);
    assert(Seq::<u8>::empty() + data =~= data);
    // Unfold the entry walk one entry at a time.
    assert(parse_entries(bytes, 39, 0, code, data) == Ok::<(Seq<u8>, Seq<u8>), FormatError>(
        (code, data),
    ));
    assert(parse_entries(bytes, 24, 1, code, Seq::empty()) == parse_entries(
        bytes,
        39,
        0,
        code,
        data,
    ));
    assert(parse_entries(bytes, 9, 2, Seq::empty(), Seq::empty()) == parse_entries(
        bytes,
        24,
        1,
        code,
        Seq::empty(),
    ));
}

} // verus!

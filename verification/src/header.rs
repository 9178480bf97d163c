//! The fixed 32-byte IVF file header: its byte layout as a spec, the
//! executable builder and parser, and the round trip between them.

use crate::le_bytes::{
    lemma_u16_le_round_trip, lemma_u32_le_round_trip, push_u16_le, push_u32_le, read_u16_le,
    read_u32_le, spec_u16_from_le, spec_u16_le, spec_u32_from_le, spec_u32_le,
};
use vstd::prelude::*;

verus! {

/// Length in bytes of the fixed file header; also the value stored in its
/// `header_size` field, a format constant independent of any struct layout.
pub const HEADER_SIZE: u16 = 32;

/// Format version stored in the header; always 0.
pub const HEADER_VERSION: u16 = 0;

/// The four-character code for the default codec, `VP80`, packed little-endian.
pub const FOURCC_VP8: u32 = 0x30385056;

/// The four-character code for the secondary codec, `VP90`, packed little-endian.
pub const FOURCC_VP9: u32 = 0x30395056;

/// The caller-supplied fields of an IVF file header. The signature, version
/// and header size are format constants and appear only in the byte layout.
#[derive(Clone, Copy, PartialEq, Eq, Structural, Debug)]
pub struct IvfHeader {
    /// Four-character code naming the payload bitstream, packed little-endian.
    pub fourcc: u32,
    /// Luma width in pixels.
    pub width: u16,
    /// Luma height in pixels.
    pub height: u16,
    /// Timebase numerator.
    pub framerate_num: u32,
    /// Timebase denominator.
    pub framerate_den: u32,
    /// Total frame records, or 0 when unknown at header-write time.
    pub frame_count: u32,
}

/// The 32 bytes of the file header: the `DKIF` signature, version 0, header
/// size 32, then the caller-supplied fields, all little-endian, with a
/// reserved word of 0 at the end.
pub open spec fn spec_header_bytes(h: IvfHeader) -> Seq<u8> {
    seq![0x44u8, 0x4bu8, 0x49u8, 0x46u8] + spec_u16_le(HEADER_VERSION) + spec_u16_le(HEADER_SIZE)
        + spec_u32_le(h.fourcc) + spec_u16_le(h.width) + spec_u16_le(h.height) + spec_u32_le(
        h.framerate_num,
    ) + spec_u32_le(h.framerate_den) + spec_u32_le(h.frame_count) + spec_u32_le(0)
}

/// The header encoded by 32 bytes, or `None` where the signature, version or
/// header-size field is not the format constant.
pub open spec fn spec_parse_header(bytes: Seq<u8>) -> Option<IvfHeader> {
    if bytes.len() != HEADER_SIZE {
        None
    } else if bytes[0] != 0x44u8 || bytes[1] != 0x4bu8 || bytes[2] != 0x49u8 || bytes[3] != 0x46u8 {
        None
    } else if spec_u16_from_le(bytes[4], bytes[5]) != HEADER_VERSION {
        None
    } else if spec_u16_from_le(bytes[6], bytes[7]) != HEADER_SIZE {
        None
    } else {
        Some(
            IvfHeader {
                fourcc: spec_u32_from_le(bytes[8], bytes[9], bytes[10], bytes[11]),
                width: spec_u16_from_le(bytes[12], bytes[13]),
                height: spec_u16_from_le(bytes[14], bytes[15]),
                framerate_num: spec_u32_from_le(bytes[16], bytes[17], bytes[18], bytes[19]),
                framerate_den: spec_u32_from_le(bytes[20], bytes[21], bytes[22], bytes[23]),
                frame_count: spec_u32_from_le(bytes[24], bytes[25], bytes[26], bytes[27]),
            },
        )
    }
}

/// Serializes the header into its 32 bytes.
pub fn header_bytes(h: &IvfHeader) -> (bytes: Vec<u8>)
    ensures
        bytes@ == spec_header_bytes(*h),
        bytes@.len() == HEADER_SIZE,
{
    let mut out: Vec<u8> = Vec::new();
    out.push(0x44);
    out.push(0x4b);
    out.push(0x49);
    out.push(0x46);
    push_u16_le(&mut out, HEADER_VERSION);
    push_u16_le(&mut out, HEADER_SIZE);
    push_u32_le(&mut out, h.fourcc);
    push_u16_le(&mut out, h.width);
    push_u16_le(&mut out, h.height);
    push_u32_le(&mut out, h.framerate_num);
    push_u32_le(&mut out, h.framerate_den);
    push_u32_le(&mut out, h.frame_count);
    push_u32_le(&mut out, 0);
    assert(out@ =~= spec_header_bytes(*h));
    out
}

/// Parses 32 header bytes back into their fields; rejects any input whose
/// length, signature, version or header-size field is not the format's.
pub fn parse_header(bytes: &Vec<u8>) -> (h: Option<IvfHeader>)
    ensures
        h == spec_parse_header(bytes@),
{
    if bytes.len() != HEADER_SIZE as usize {
        return None;
    }
    if bytes[0] != 0x44 || bytes[1] != 0x4b || bytes[2] != 0x49 || bytes[3] != 0x46 {
        return None;
    }
    if read_u16_le(bytes, 4) != HEADER_VERSION {
        return None;
    }
    if read_u16_le(bytes, 6) != HEADER_SIZE {
        return None;
    }
    Some(
        IvfHeader {
            fourcc: read_u32_le(bytes, 8),
            width: read_u16_le(bytes, 12),
            height: read_u16_le(bytes, 14),
            framerate_num: read_u32_le(bytes, 16),
            framerate_den: read_u32_le(bytes, 20),
            frame_count: read_u32_le(bytes, 24),
        },
    )
}

/// Header round trip: parsing the 32 bytes written for any header gives back
/// exactly its field values, and those bytes always carry the constant
/// signature, version and header size.
pub proof fn lemma_header_round_trip(h: IvfHeader)
    ensures
        spec_parse_header(spec_header_bytes(h)) == Some(h),
        spec_header_bytes(h).len() == HEADER_SIZE,
        spec_header_bytes(h).subrange(0, 4) == seq![0x44u8, 0x4bu8, 0x49u8, 0x46u8],
        spec_u16_from_le(spec_header_bytes(h)[4], spec_header_bytes(h)[5]) == HEADER_VERSION,
        spec_u16_from_le(spec_header_bytes(h)[6], spec_header_bytes(h)[7]) == HEADER_SIZE,
{
    let bytes = spec_header_bytes(h);
    assert(bytes.len() == HEADER_SIZE);
    assert(bytes.subrange(0, 4) =~= seq![0x44u8, 0x4bu8, 0x49u8, 0x46u8]);
    lemma_u16_le_round_trip(HEADER_VERSION);
    lemma_u16_le_round_trip(HEADER_SIZE);
    lemma_u32_le_round_trip(h.fourcc);
    lemma_u16_le_round_trip(h.width);
    lemma_u16_le_round_trip(h.height);
    lemma_u32_le_round_trip(h.framerate_num);
    lemma_u32_le_round_trip(h.framerate_den);
    lemma_u32_le_round_trip(h.frame_count);
    assert(spec_parse_header(bytes) == Some(h));
}

/// The four-character code the pipeline stores for its codec choice: `VP90`
/// where the secondary codec was selected, else `VP80`.
pub fn codec_fourcc(vp9: bool) -> (c: u32)
    ensures
        c == if vp9 {
            FOURCC_VP9
        } else {
            FOURCC_VP8
        },
{
    if vp9 {
        FOURCC_VP9
    } else {
        FOURCC_VP8
    }
}

} // verus!

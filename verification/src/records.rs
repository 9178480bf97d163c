//! Frame records of the container: an 8-byte prefix carrying the payload
//! length and the presentation timestamp, followed by the payload itself.
//! The byte layout is given as spec functions, and building and re-reading a
//! stream of records are proved to be inverses.

use crate::header::{spec_header_bytes, spec_parse_header, IvfHeader, HEADER_SIZE};
use crate::le_bytes::{
    lemma_u32_le_round_trip, lemma_u64_le_round_trip, push_u32_le, push_u64_le, read_u32_le,
    read_u64_le, spec_u32_from_le, spec_u32_le, spec_u64_from_le, spec_u64_le,
};
use vstd::prelude::*;

verus! {

/// Bytes of the fixed prefix of every frame record: a 32-bit payload length
/// and a 64-bit timestamp.
pub const RECORD_PREFIX_SIZE: u32 = 12;

/// One frame record as parsed back from a container stream.
pub struct FrameRecord {
    /// The opaque compressed chunk.
    pub payload: Vec<u8>,
    /// Presentation index or time value, in units of the header timebase.
    pub timestamp: u64,
}

/// The mathematical model of a record: its payload bytes and its timestamp.
pub open spec fn records_view(records: Seq<FrameRecord>) -> Seq<(Seq<u8>, u64)> {
    Seq::new(records.len(), |i: int| (records[i].payload@, records[i].timestamp))
}

/// The bytes of one frame record: payload length and timestamp little-endian,
/// then the payload, with nothing in between.
pub open spec fn spec_record_bytes(payload: Seq<u8>, timestamp: u64) -> Seq<u8> {
    spec_u32_le(payload.len() as u32) + spec_u64_le(timestamp) + payload
}

/// The bytes of a sequence of frame records, one after the other.
pub open spec fn spec_records_bytes(records: Seq<(Seq<u8>, u64)>) -> Seq<u8>
    decreases records.len(),
{
    if records.len() == 0 {
        Seq::empty()
    } else {
        spec_record_bytes(records[0].0, records[0].1) + spec_records_bytes(records.drop_first())
    }
}

/// Every payload is small enough for its length to be stored in the record's
/// 32-bit length field.
pub open spec fn records_wf(records: Seq<(Seq<u8>, u64)>) -> bool {
    forall|i: int| 0 <= i < records.len() ==> (#[trigger] records[i]).0.len() <= u32::MAX
}

/// Record timestamps never decrease along the stream.
pub open spec fn timestamps_nondecreasing(records: Seq<(Seq<u8>, u64)>) -> bool {
    forall|i: int, j: int|
        0 <= i <= j < records.len() ==> (#[trigger] records[i]).1 <= (#[trigger] records[j]).1
}

/// The records encoded by a byte stream, or `None` where the stream is cut
/// short inside a record. The empty stream holds no records.
pub open spec fn spec_parse_records(bytes: Seq<u8>) -> Option<Seq<(Seq<u8>, u64)>>
    decreases bytes.len(),
{
    if bytes.len() == 0 {
        Some(Seq::empty())
    } else if bytes.len() < RECORD_PREFIX_SIZE {
        None
    } else {
        let n = spec_u32_from_le(bytes[0], bytes[1], bytes[2], bytes[3]) as int;
        if bytes.len() < RECORD_PREFIX_SIZE + n {
            None
        } else {
            let timestamp = spec_u64_from_le(
                bytes[4],
                bytes[5],
                bytes[6],
                bytes[7],
                bytes[8],
                bytes[9],
                bytes[10],
                bytes[11],
            );
            match spec_parse_records(bytes.skip(RECORD_PREFIX_SIZE + n)) {
                Some(rest) => Some(
                    seq![(bytes.subrange(RECORD_PREFIX_SIZE as int, RECORD_PREFIX_SIZE + n), timestamp)]
                        + rest,
                ),
                None => None,
            }
        }
    }
}

/// Record round trip: re-reading the bytes written for any sequence of
/// records gives back the same records, in the same order, with identical
/// payload bytes and timestamps.
pub proof fn lemma_records_round_trip(records: Seq<(Seq<u8>, u64)>)
    requires
        records_wf(records),
    ensures
        spec_parse_records(spec_records_bytes(records)) == Some(records),
    decreases records.len(),
{
    let bytes = spec_records_bytes(records);
    if records.len() == 0 {
        assert(records =~= Seq::<(Seq<u8>, u64)>::empty());
    } else {
        let head = records[0];
        let rest = records.drop_first();
        let n32 = head.0.len() as u32;
        let head_bytes = spec_record_bytes(head.0, head.1);
        let tail_bytes = spec_records_bytes(rest);
        assert(head.0.len() <= u32::MAX);
        assert(head_bytes.len() == RECORD_PREFIX_SIZE + head.0.len());
        assert(bytes == head_bytes + tail_bytes);
        lemma_u32_le_round_trip(n32);
        lemma_u64_le_round_trip(head.1);
        assert(spec_u32_from_le(bytes[0], bytes[1], bytes[2], bytes[3]) == n32);
        let n = head.0.len() as int;
        assert(spec_u64_from_le(
            bytes[4],
            bytes[5],
            bytes[6],
            bytes[7],
            bytes[8],
            bytes[9],
            bytes[10],
            bytes[11],
        ) == head.1);
        assert(bytes.len() == RECORD_PREFIX_SIZE + n + tail_bytes.len());
        assert(bytes.subrange(RECORD_PREFIX_SIZE as int, RECORD_PREFIX_SIZE + n) =~= head.0);
        assert(bytes.skip(RECORD_PREFIX_SIZE + n) =~= tail_bytes);
        assert(records_wf(rest));
        lemma_records_round_trip(rest);
        assert(seq![(bytes.subrange(RECORD_PREFIX_SIZE as int, RECORD_PREFIX_SIZE + n), head.1)]
            + rest =~= records);
    }
}

/// Serializes one frame record: the 8-byte length and timestamp prefix,
/// then exactly the payload bytes.
pub fn record_bytes(payload: &Vec<u8>, timestamp: u64) -> (bytes: Vec<u8>)
    requires
        payload.len() <= u32::MAX,
    ensures
        bytes@ == spec_record_bytes(payload@, timestamp),
        bytes@.len() == RECORD_PREFIX_SIZE + payload@.len(),
{
    let mut out: Vec<u8> = Vec::new();
    push_u32_le(&mut out, payload.len() as u32);
    push_u64_le(&mut out, timestamp);
    let prefix = Ghost(out@);
    assert(out@ =~= spec_u32_le(payload@.len() as u32) + spec_u64_le(timestamp));
    let mut i: usize = 0;
    while i < payload.len()
        invariant
            i <= payload.len(),
            payload.len() <= u32::MAX,
            prefix@ == spec_u32_le(payload@.len() as u32) + spec_u64_le(timestamp),
            out@ == prefix@ + payload@.take(i as int),
        decreases payload.len() - i,
    {
        out.push(payload[i]);
        assert(out@ =~= prefix@ + payload@.take(i + 1));
        i = i + 1;
    }
    assert(out@ =~= spec_record_bytes(payload@, timestamp));
    out
}

/// `prefix` followed by whatever `parsed` holds, where it holds anything.
pub open spec fn opt_with_prefix(
    prefix: Seq<(Seq<u8>, u64)>,
    parsed: Option<Seq<(Seq<u8>, u64)>>,
) -> Option<Seq<(Seq<u8>, u64)>> {
    match parsed {
        Some(rest) => Some(prefix + rest),
        None => None,
    }
}

/// Parses a stream of frame records, from its first byte to its end;
/// rejects a stream cut short inside a record.
pub fn parse_records(bytes: &Vec<u8>) -> (r: Option<Vec<FrameRecord>>)
    ensures
        match r {
            Some(v) => spec_parse_records(bytes@) == Some(records_view(v@)),
            None => spec_parse_records(bytes@) is None,
        },
{
    let mut recs: Vec<FrameRecord> = Vec::new();
    let mut at: usize = 0;
    assert(bytes@.skip(0) =~= bytes@);
    while at < bytes.len()
        invariant
            at <= bytes.len(),
            spec_parse_records(bytes@) == opt_with_prefix(
                records_view(recs@),
                spec_parse_records(bytes@.skip(at as int)),
            ),
        decreases bytes.len() - at,
    {
        let ghost suffix = bytes@.skip(at as int);
        assert(suffix.len() == bytes@.len() - at);
        if bytes.len() - at < RECORD_PREFIX_SIZE as usize {
            return None;
        }
        assert(forall|k: int| 0 <= k < suffix.len() ==> suffix[k] == bytes@[at + k]);
        let n32 = read_u32_le(bytes, at);
        let timestamp = read_u64_le(bytes, at + 4);
        assert(n32 == spec_u32_from_le(suffix[0], suffix[1], suffix[2], suffix[3]));
        assert(timestamp == spec_u64_from_le(
            suffix[4],
            suffix[5],
            suffix[6],
            suffix[7],
            suffix[8],
            suffix[9],
            suffix[10],
            suffix[11],
        ));
        let n = n32 as usize;
        if n > bytes.len() - at - RECORD_PREFIX_SIZE as usize {
            assert(suffix.len() < RECORD_PREFIX_SIZE + n);
            return None;
        }
        let mut payload: Vec<u8> = Vec::new();
        let start = at + RECORD_PREFIX_SIZE as usize;
        assert(payload@ =~= bytes@.subrange(start as int, start as int));
        let mut j: usize = 0;
        while j < n
            invariant
                j <= n,
                start + n <= bytes.len(),
                payload@ == bytes@.subrange(start as int, start + j),
            decreases n - j,
        {
            payload.push(bytes[start + j]);
            assert(payload@ =~= bytes@.subrange(start as int, start + j + 1));
            j = j + 1;
        }
        let ghost old_recs = recs@;
        recs.push(FrameRecord { payload, timestamp });
        let next = start + n;
        proof {
            let first = (suffix.subrange(RECORD_PREFIX_SIZE as int, RECORD_PREFIX_SIZE + n as int), timestamp);
            assert(first.0 =~= bytes@.subrange(start as int, start + n as int));
            assert(suffix.skip(RECORD_PREFIX_SIZE + n as int) =~= bytes@.skip(next as int));
            assert(records_view(recs@) =~= records_view(old_recs) + seq![first]);
            match spec_parse_records(bytes@.skip(next as int)) {
                Some(rest) => {
                    assert(spec_parse_records(suffix) == Some(seq![first] + rest));
                    assert(records_view(old_recs) + (seq![first] + rest) =~= records_view(recs@)
                        + rest);
                }
                None => {
                    assert(spec_parse_records(suffix) is None);
                }
            }
        }
        at = next;
    }
    assert(bytes@.skip(at as int) =~= Seq::<u8>::empty());
    assert(records_view(recs@) + Seq::<(Seq<u8>, u64)>::empty() =~= records_view(recs@));
    Some(recs)
}

/// The header and records encoded by a whole container stream: the fixed
/// 32-byte header, immediately followed by the frame records.
pub open spec fn spec_parse_container(bytes: Seq<u8>) -> Option<
    (IvfHeader, Seq<(Seq<u8>, u64)>),
> {
    if bytes.len() < HEADER_SIZE {
        None
    } else {
        match spec_parse_header(bytes.take(HEADER_SIZE as int)) {
            Some(h) => match spec_parse_records(bytes.skip(HEADER_SIZE as int)) {
                Some(rs) => Some((h, rs)),
                None => None,
            },
            None => None,
        }
    }
}

/// Parses a whole container stream: the fixed 32-byte header, immediately
/// followed by the frame records, to the stream's end.
pub fn parse_container(bytes: &Vec<u8>) -> (r: Option<(IvfHeader, Vec<FrameRecord>)>)
    ensures
        match r {
            Some(p) => spec_parse_container(bytes@) == Some((p.0, records_view(p.1@))),
            None => spec_parse_container(bytes@) is None,
        },
{
    if bytes.len() < HEADER_SIZE as usize {
        return None;
    }
    let mut head: Vec<u8> = Vec::new();
    let mut i: usize = 0;
    assert(head@ =~= bytes@.take(0));
    while i < HEADER_SIZE as usize
        invariant
            i <= HEADER_SIZE <= bytes@.len(),
            head@ == bytes@.take(i as int),
        decreases HEADER_SIZE - i,
    {
        head.push(bytes[i]);
        assert(head@ =~= bytes@.take(i + 1));
        i = i + 1;
    }
    let header = match crate::header::parse_header(&head) {
        Some(h) => h,
        None => {
            return None;
        },
    };
    let mut rest: Vec<u8> = Vec::new();
    let mut j: usize = HEADER_SIZE as usize;
    assert(rest@ =~= bytes@.subrange(HEADER_SIZE as int, HEADER_SIZE as int));
    while j < bytes.len()
        invariant
            HEADER_SIZE <= j <= bytes@.len(),
            rest@ == bytes@.subrange(HEADER_SIZE as int, j as int),
        decreases bytes@.len() - j,
    {
        rest.push(bytes[j]);
        assert(rest@ =~= bytes@.subrange(HEADER_SIZE as int, j + 1));
        j = j + 1;
    }
    assert(rest@ == bytes@.skip(HEADER_SIZE as int));
    match parse_records(&rest) {
        Some(records) => Some((header, records)),
        None => None,
    }
}

/// Container round trip: a header followed by a sequence of records reads
/// back as exactly that header and those records.
pub proof fn lemma_container_round_trip(h: IvfHeader, records: Seq<(Seq<u8>, u64)>)
    requires
        records_wf(records),
    ensures
        spec_parse_container(spec_header_bytes(h) + spec_records_bytes(records)) == Some(
            (h, records),
        ),
{
    let bytes = spec_header_bytes(h) + spec_records_bytes(records);
    crate::header::lemma_header_round_trip(h);
    assert(bytes.take(HEADER_SIZE as int) =~= spec_header_bytes(h));
    assert(bytes.skip(HEADER_SIZE as int) =~= spec_records_bytes(records));
    lemma_records_round_trip(records);
}

} // verus!

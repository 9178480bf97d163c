//! The container writer and the pacing state of the encoding loop.
//!
//! `IvfWriter` owns the history of records emitted so far and hands back the
//! exact bytes to append to the output stream; `Pacer` counts the input
//! frames submitted to the encoder and stamps every chunk of a frame with
//! that frame's index.

use crate::header::{spec_header_bytes, IvfHeader, HEADER_SIZE};
use crate::records::{
    lemma_container_round_trip, record_bytes, records_wf, spec_parse_container, spec_record_bytes,
    spec_records_bytes, timestamps_nondecreasing,
};
use vstd::prelude::*;

verus! {

/// Writer for one container stream. It is bound to a single destination by
/// its caller: every byte vector it returns is appended there, in order, so
/// the stream is always the header followed by `self.records()`.
pub struct IvfWriter {
    num_records: u32,
    last_timestamp: u64,
    records: Ghost<Seq<(Seq<u8>, u64)>>,
}

impl IvfWriter {
    /// The records written so far, oldest first.
    pub closed spec fn records(self) -> Seq<(Seq<u8>, u64)> {
        self.records@
    }

    /// No timestamp of a written record exceeds this bound.
    pub closed spec fn timestamp_bound(self) -> u64 {
        self.last_timestamp
    }

    /// The records are well-formed, in timestamp order, counted exactly by
    /// the internal frame counter, and bounded by `timestamp_bound`.
    pub closed spec fn wf(self) -> bool {
        &&& records_wf(self.records@)
        &&& timestamps_nondecreasing(self.records@)
        &&& self.num_records == self.records@.len()
        &&& forall|i: int|
            0 <= i < self.records@.len() ==> (#[trigger] self.records@[i]).1
                <= self.last_timestamp
    }

    /// Starts a container stream: returns the writer, bound to the stream the
    /// caller writes the returned 32 header bytes to.
    pub fn init(header: &IvfHeader) -> (r: (IvfWriter, Vec<u8>))
        ensures
            r.0.wf(),
            r.0.records() == Seq::<(Seq<u8>, u64)>::empty(),
            r.0.timestamp_bound() == 0,
            r.1@ == spec_header_bytes(*header),
            r.1@.len() == HEADER_SIZE,
    {
        let writer = IvfWriter {
            num_records: 0,
            last_timestamp: 0,
            records: Ghost(Seq::empty()),
        };
        let bytes = crate::header::header_bytes(header);
        (writer, bytes)
    }

    /// Appends one frame record: returns its exact bytes (8-byte prefix plus
    /// the payload) for the caller to append to the stream, and counts it.
    /// Timestamps must never decrease from one record to the next.
    pub fn write_frame(&mut self, payload: &Vec<u8>, timestamp: u64) -> (bytes: Vec<u8>)
        requires
            old(self).wf(),
            payload.len() <= u32::MAX,
            timestamp >= old(self).timestamp_bound(),
            old(self).records().len() < u32::MAX,
        ensures
            final(self).wf(),
            final(self).records() == old(self).records().push((payload@, timestamp)),
            final(self).timestamp_bound() == timestamp,
            bytes@ == spec_record_bytes(payload@, timestamp),
    {
        let bytes = record_bytes(payload, timestamp);
        self.num_records = self.num_records + 1;
        self.last_timestamp = timestamp;
        proof {
            self.records@ = self.records@.push((payload@, timestamp));
        }
        bytes
    }

    /// The number of frame records written so far.
    pub fn frame_count(&self) -> (n: u32)
        requires
            self.wf(),
        ensures
            n == self.records().len(),
    {
        self.num_records
    }
}

/// All of `payloads` stamped with one timestamp, in order.
pub open spec fn stamped(payloads: Seq<Seq<u8>>, timestamp: u64) -> Seq<(Seq<u8>, u64)> {
    Seq::new(payloads.len(), |i: int| (payloads[i], timestamp))
}

/// The byte contents of each chunk, in order.
pub open spec fn payloads_view(chunks: Seq<Vec<u8>>) -> Seq<Seq<u8>> {
    Seq::new(chunks.len(), |i: int| chunks[i]@)
}

/// Pacing state of the encoding loop: the container writer plus the count of
/// raw input frames submitted to the encoder so far. Each encoded chunk is
/// stamped with the index of the input frame it came from, so container
/// timestamps are frame indices, independent of real elapsed time.
pub struct Pacer {
    writer: IvfWriter,
    frame_index: u32,
}

impl Pacer {
    /// The records emitted so far.
    pub closed spec fn records(self) -> Seq<(Seq<u8>, u64)> {
        self.writer.records()
    }

    /// How many raw input frames have been submitted.
    pub closed spec fn frames_submitted(self) -> int {
        self.frame_index as int
    }

    /// The writer is well-formed and every record so far is stamped with the
    /// index of an already-submitted frame.
    pub closed spec fn wf(self) -> bool {
        &&& self.writer.wf()
        &&& self.frame_index == 0 ==> self.writer.timestamp_bound() == 0
        &&& self.frame_index > 0 ==> self.writer.timestamp_bound() < self.frame_index
    }

    /// Starts a paced encode: returns the pacer and the 32 header bytes that
    /// open the output stream.
    pub fn new(header: &IvfHeader) -> (r: (Pacer, Vec<u8>))
        ensures
            r.0.wf(),
            r.0.records() == Seq::<(Seq<u8>, u64)>::empty(),
            r.0.frames_submitted() == 0,
            r.1@ == spec_header_bytes(*header),
    {
        let (writer, bytes) = IvfWriter::init(header);
        (Pacer { writer, frame_index: 0 }, bytes)
    }

    /// Takes the chunks the encoder returned for the next raw input frame,
    /// in the order returned, and appends one record per chunk, each stamped
    /// with this frame's index. Returns the exact bytes to append to the
    /// stream.
    pub fn submit_frame(&mut self, chunks: &Vec<Vec<u8>>) -> (out: Vec<u8>)
        requires
            old(self).wf(),
            old(self).frames_submitted() < u32::MAX,
            old(self).records().len() + chunks.len() < u32::MAX,
            forall|i: int| 0 <= i < chunks@.len() ==> (#[trigger] chunks@[i])@.len() <= u32::MAX,
        ensures
            final(self).wf(),
            final(self).records() == old(self).records() + stamped(
                payloads_view(chunks@),
                old(self).frames_submitted() as u64,
            ),
            final(self).frames_submitted() == old(self).frames_submitted() + 1,
            out@ == spec_records_bytes(
                stamped(payloads_view(chunks@), old(self).frames_submitted() as u64),
            ),
    {
        let timestamp: u64 = self.frame_index as u64;
        let ghost new_records = stamped(payloads_view(chunks@), timestamp);
        let mut out: Vec<u8> = Vec::new();
        let mut i: usize = 0;
        assert(out@ =~= spec_records_bytes(new_records.take(0)));
        assert(self.records() + new_records.take(0) =~= self.records());
        while i < chunks.len()
            invariant
                i <= chunks@.len(),
                self.writer.wf(),
                self.writer.timestamp_bound() <= timestamp,
                timestamp == old(self).frames_submitted(),
                self.frame_index == old(self).frame_index,
                new_records == stamped(payloads_view(chunks@), timestamp),
                forall|k: int| 0 <= k < chunks@.len() ==> (#[trigger] chunks@[k])@.len()
                    <= u32::MAX,
                self.records() == old(self).records() + new_records.take(i as int),
                self.records().len() == old(self).records().len() + i,
                old(self).records().len() + chunks@.len() < u32::MAX,
                out@ == spec_records_bytes(new_records.take(i as int)),
            decreases chunks@.len() - i,
        {
            let chunk = &chunks[i];
            assert(chunk@ == payloads_view(chunks@)[i as int]);
            let mut bytes = self.writer.write_frame(chunk, timestamp);
            let ghost done = new_records.take(i as int);
            proof {
                assert(new_records.take(i + 1) =~= done.push((chunk@, timestamp)));
                assert(old(self).records() + new_records.take(i + 1) =~= (old(self).records()
                    + done).push((chunk@, timestamp)));
                lemma_records_bytes_push(done, (chunk@, timestamp));
            }
            let mut k: usize = 0;
            let ghost out_before = out@;
            while k < bytes.len()
                invariant
                    k <= bytes@.len(),
                    out@ == out_before + bytes@.take(k as int),
                decreases bytes@.len() - k,
            {
                out.push(bytes[k]);
                assert(out@ =~= out_before + bytes@.take(k + 1));
                k = k + 1;
            }
            assert(bytes@.take(bytes@.len() as int) =~= bytes@);
            assert(out@ == spec_records_bytes(new_records.take(i + 1)));
            i = i + 1;
        }
        assert(new_records.take(chunks@.len() as int) =~= new_records);
        self.frame_index = self.frame_index + 1;
        out
    }
}

/// Whatever a writer has written parses back: the header bytes it opened
/// the stream with, followed by the bytes of all records it has emitted,
/// read back as exactly that header and those records.
pub proof fn lemma_writer_stream_parses(w: IvfWriter, h: IvfHeader)
    requires
        w.wf(),
    ensures
        spec_parse_container(spec_header_bytes(h) + spec_records_bytes(w.records())) == Some(
            (h, w.records()),
        ),
{
    lemma_container_round_trip(h, w.records());
}

/// Whatever a paced encode has produced parses back: its output stream is
/// always a well-formed container holding exactly the records submitted.
pub proof fn lemma_pacer_stream_parses(p: Pacer, h: IvfHeader)
    requires
        p.wf(),
    ensures
        spec_parse_container(spec_header_bytes(h) + spec_records_bytes(p.records())) == Some(
            (h, p.records()),
        ),
{
    lemma_container_round_trip(h, p.records());
}

/// Appending one record to a sequence appends exactly that record's bytes to
/// the sequence's bytes.
pub proof fn lemma_records_bytes_push(records: Seq<(Seq<u8>, u64)>, record: (Seq<u8>, u64))
    ensures
        spec_records_bytes(records.push(record)) == spec_records_bytes(records)
            + spec_record_bytes(record.0, record.1),
    decreases records.len(),
{
    reveal_with_fuel(spec_records_bytes, 3);
    if records.len() == 0 {
        assert(records.push(record)[0] == record);
        assert(records.push(record).drop_first() =~= Seq::<(Seq<u8>, u64)>::empty());
        assert(spec_records_bytes(records.push(record)) =~= spec_records_bytes(records)
            + spec_record_bytes(record.0, record.1));
    } else {
        let pushed = records.push(record);
        assert(pushed[0] == records[0]);
        assert(pushed.drop_first() =~= records.drop_first().push(record));
        lemma_records_bytes_push(records.drop_first(), record);
        assert(spec_records_bytes(pushed) == spec_record_bytes(pushed[0].0, pushed[0].1)
            + spec_records_bytes(pushed.drop_first()));
        assert(spec_records_bytes(records) == spec_record_bytes(records[0].0, records[0].1)
            + spec_records_bytes(records.drop_first()));
        assert(spec_records_bytes(pushed) =~= spec_records_bytes(records) + spec_record_bytes(
            record.0,
            record.1,
        ));
    }
}

/// Milliseconds on the presentation clock, from whole seconds and the
/// sub-second remainder in milliseconds.
pub fn elapsed_ms(secs: u64, subsec_millis: u32) -> (ms: u64)
    requires
        secs * 1000 + subsec_millis <= u64::MAX,
    ensures
        ms == secs * 1000 + subsec_millis,
{
    secs * 1000 + subsec_millis as u64
}

} // verus!


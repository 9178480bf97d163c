use ivfenc::frame_buffer_size;
use ivfenc::header::{codec_fourcc, header_bytes, parse_header, IvfHeader, FOURCC_VP8, FOURCC_VP9};
use ivfenc::records::{parse_container, parse_records, record_bytes};
use ivfenc::writer::{elapsed_ms, IvfWriter, Pacer};

fn sample_header() -> IvfHeader {
    IvfHeader {
        fourcc: FOURCC_VP8,
        width: 640,
        height: 480,
        framerate_num: 30,
        framerate_den: 1,
        frame_count: 0,
    }
}

#[test]
fn frame_buffer_size_formula() {
    // One planar 4:2:0 frame: width * height * 3 / 2 bytes.
    assert_eq!(frame_buffer_size(4, 4), 24);
    assert_eq!(frame_buffer_size(640, 480), 460800);
    assert_eq!(frame_buffer_size(1920, 1080), 3110400);
    // Odd geometry rounds down with the integer arithmetic.
    assert_eq!(frame_buffer_size(3, 3), 13);
}

#[test]
fn header_bytes_exact_layout() {
    let h = IvfHeader {
        fourcc: FOURCC_VP8,
        width: 4,
        height: 4,
        framerate_num: 30,
        framerate_den: 1,
        frame_count: 0,
    };
    let bytes = header_bytes(&h);
    assert_eq!(
        bytes,
        vec![
            0x44, 0x4b, 0x49, 0x46, // "DKIF"
            0, 0, // version 0
            32, 0, // header size 32
            0x56, 0x50, 0x38, 0x30, // "VP80"
            4, 0, // width
            4, 0, // height
            30, 0, 0, 0, // framerate numerator
            1, 0, 0, 0, // framerate denominator
            0, 0, 0, 0, // frame count
            0, 0, 0, 0, // reserved
        ]
    );
}

#[test]
fn header_round_trip() {
    let h = IvfHeader {
        fourcc: FOURCC_VP9,
        width: 1920,
        height: 1080,
        framerate_num: 60000,
        framerate_den: 1001,
        frame_count: 12345,
    };
    let bytes = header_bytes(&h);
    assert_eq!(bytes.len(), 32);
    // The format constants stand in the bytes whatever the field values are.
    assert_eq!(&bytes[0..4], &[0x44, 0x4b, 0x49, 0x46]);
    assert_eq!(&bytes[4..6], &[0, 0]);
    assert_eq!(&bytes[6..8], &[32, 0]);
    let parsed = parse_header(&bytes).expect("own header bytes must parse");
    assert_eq!(parsed, h);
}

#[test]
fn header_rejects_corruption() {
    let h = sample_header();
    let good = header_bytes(&h);

    let mut bad_sig = good.clone();
    bad_sig[0] = 0x45;
    assert_eq!(parse_header(&bad_sig), None);

    let mut bad_version = good.clone();
    bad_version[4] = 1;
    assert_eq!(parse_header(&bad_version), None);

    let mut bad_size = good.clone();
    bad_size[6] = 31;
    assert_eq!(parse_header(&bad_size), None);

    let mut short = good.clone();
    short.pop();
    assert_eq!(parse_header(&short), None);
}

#[test]
fn record_bytes_exact_layout() {
    let bytes = record_bytes(&vec![0xaa, 0xbb], 7);
    assert_eq!(
        bytes,
        vec![
            2, 0, 0, 0, // payload size
            7, 0, 0, 0, 0, 0, 0, 0, // timestamp
            0xaa, 0xbb, // payload
        ]
    );
}

#[test]
fn records_round_trip() {
    // Three records with non-decreasing timestamps, written then re-read.
    let payloads: Vec<Vec<u8>> = vec![vec![1, 2, 3], vec![], vec![9; 300]];
    let timestamps: Vec<u64> = vec![0, 5, 5];
    let mut stream: Vec<u8> = Vec::new();
    for k in 0..3 {
        stream.extend_from_slice(&record_bytes(&payloads[k], timestamps[k]));
    }
    let parsed = parse_records(&stream).expect("own record bytes must parse");
    assert_eq!(parsed.len(), 3);
    for k in 0..3 {
        assert_eq!(parsed[k].payload, payloads[k]);
        assert_eq!(parsed[k].timestamp, timestamps[k]);
    }
}

#[test]
fn records_reject_truncation() {
    let mut stream = record_bytes(&vec![1, 2, 3, 4], 0);
    stream.pop();
    assert!(parse_records(&stream).is_none());
    // A lone, cut-short prefix is rejected too.
    assert!(parse_records(&vec![4, 0, 0]).is_none());
}

#[test]
fn empty_stream_holds_no_records() {
    let parsed = parse_records(&Vec::new()).expect("empty stream parses");
    assert_eq!(parsed.len(), 0);
}

#[test]
fn writer_counts_and_orders_records() {
    let (mut writer, head) = IvfWriter::init(&sample_header());
    assert_eq!(head.len(), 32);
    assert_eq!(writer.frame_count(), 0);
    let mut stream: Vec<u8> = Vec::new();
    stream.extend_from_slice(&writer.write_frame(&vec![10, 11], 0));
    stream.extend_from_slice(&writer.write_frame(&vec![12], 0));
    stream.extend_from_slice(&writer.write_frame(&vec![13, 14, 15], 2));
    assert_eq!(writer.frame_count(), 3);
    let parsed = parse_records(&stream).expect("writer output must parse");
    assert_eq!(parsed.len(), 3);
    assert_eq!(parsed[0].payload, vec![10, 11]);
    assert_eq!(parsed[1].payload, vec![12]);
    assert_eq!(parsed[2].payload, vec![13, 14, 15]);
    assert_eq!(parsed[0].timestamp, 0);
    assert_eq!(parsed[1].timestamp, 0);
    assert_eq!(parsed[2].timestamp, 2);
}

#[test]
fn three_frame_end_to_end() {
    // Input of exactly 3 full frames at width=4, height=4 (24-byte frames),
    // against a stub encoder returning one chunk per frame, alternating
    // key and non-key; key-ness does not change the container layout.
    let width: u16 = 4;
    let height: u16 = 4;
    assert_eq!(frame_buffer_size(width as u32, height as u32), 24);
    let header = IvfHeader {
        fourcc: codec_fourcc(false),
        width,
        height,
        framerate_num: 30,
        framerate_den: 1,
        frame_count: 0,
    };
    let (mut pacer, mut stream) = Pacer::new(&header);
    let stub_chunks: Vec<Vec<Vec<u8>>> = vec![
        vec![vec![0x10, 0x11, 0x12]], // key
        vec![vec![0x20]],             // non-key
        vec![vec![0x30, 0x31]],       // key
    ];
    for chunks in &stub_chunks {
        stream.extend_from_slice(&pacer.submit_frame(chunks));
    }
    let (parsed_header, records) = parse_container(&stream).expect("container must parse");
    assert_eq!(parsed_header.width, 4);
    assert_eq!(parsed_header.height, 4);
    // Exactly as many records as the encoder emitted chunks for 3 frames.
    assert_eq!(records.len(), 3);
    for k in 0..3 {
        assert_eq!(records[k].payload, stub_chunks[k][0]);
        // Container timestamps are input frame indices.
        assert_eq!(records[k].timestamp, k as u64);
    }
}

#[test]
fn pacer_stamps_all_chunks_of_a_frame_alike() {
    let (mut pacer, mut stream) = Pacer::new(&sample_header());
    stream.extend_from_slice(&pacer.submit_frame(&vec![vec![1], vec![2, 2]]));
    stream.extend_from_slice(&pacer.submit_frame(&Vec::new()));
    stream.extend_from_slice(&pacer.submit_frame(&vec![vec![3]]));
    let (_, records) = parse_container(&stream).expect("container must parse");
    assert_eq!(records.len(), 3);
    assert_eq!(records[0].timestamp, 0);
    assert_eq!(records[1].timestamp, 0);
    assert_eq!(records[2].timestamp, 2);
}

#[test]
fn elapsed_ms_formula() {
    assert_eq!(elapsed_ms(0, 0), 0);
    assert_eq!(elapsed_ms(1, 500), 1500);
    assert_eq!(elapsed_ms(90, 7), 90007);
}

#[test]
fn container_rejects_bad_or_short_stream() {
    // Shorter than the fixed header.
    assert!(parse_container(&Vec::new()).is_none());
    assert!(parse_container(&vec![0u8; 31]).is_none());
    // A corrupt signature fails the whole container.
    let mut stream = header_bytes(&sample_header());
    stream[0] = 0;
    assert!(parse_container(&stream).is_none());
    // A record cut short after a good header fails it too.
    let mut truncated = header_bytes(&sample_header());
    truncated.extend_from_slice(&[1, 0, 0, 0]);
    assert!(parse_container(&truncated).is_none());
}

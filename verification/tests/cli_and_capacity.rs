use ivfenc::args::{is_clean_shutdown, parse_u32_arg, selects_vp9, StreamErrorKind};
use ivfenc::capacity::{
    is_pipe, mode_is_fifo, parse_pipe_size, plan_capacity_raise, set_pipe_max_size,
};
use ivfenc::header::{codec_fourcc, FOURCC_VP8, FOURCC_VP9};

#[test]
fn numeric_argument_parses() {
    assert_eq!(parse_u32_arg(&b"0".to_vec()), Some(0));
    assert_eq!(parse_u32_arg(&b"640".to_vec()), Some(640));
    assert_eq!(parse_u32_arg(&b"+42".to_vec()), Some(42));
    assert_eq!(parse_u32_arg(&b"4294967295".to_vec()), Some(u32::MAX));
}

#[test]
fn malformed_numeric_argument_is_rejected() {
    // A malformed width such as "abc" must fail before any file is touched;
    // the library side of that is an exact None here.
    assert_eq!(parse_u32_arg(&b"abc".to_vec()), None);
    assert_eq!(parse_u32_arg(&b"".to_vec()), None);
    assert_eq!(parse_u32_arg(&b"+".to_vec()), None);
    assert_eq!(parse_u32_arg(&b"12x".to_vec()), None);
    assert_eq!(parse_u32_arg(&b" 12".to_vec()), None);
    assert_eq!(parse_u32_arg(&b"-12".to_vec()), None);
    assert_eq!(parse_u32_arg(&b"4294967296".to_vec()), None);
    assert_eq!(parse_u32_arg(&b"99999999999999999999".to_vec()), None);
}

#[test]
fn codec_selection_is_case_insensitive() {
    assert!(selects_vp9(&b"vp9".to_vec()));
    assert!(selects_vp9(&b"VP9".to_vec()));
    assert!(selects_vp9(&b"Vp9".to_vec()));
    assert!(selects_vp9(&b" vp9\n".to_vec()));
    assert!(!selects_vp9(&b"vp8".to_vec()));
    assert!(!selects_vp9(&b"vp9x".to_vec()));
    assert!(!selects_vp9(&b"".to_vec()));
    assert_eq!(codec_fourcc(true), FOURCC_VP9);
    assert_eq!(codec_fourcc(false), FOURCC_VP8);
}

#[test]
fn clean_shutdown_classification() {
    assert!(is_clean_shutdown(StreamErrorKind::UnexpectedEof));
    assert!(is_clean_shutdown(StreamErrorKind::BrokenPipe));
    assert!(!is_clean_shutdown(StreamErrorKind::Other));
}

#[test]
fn pipe_size_text_parses() {
    assert_eq!(parse_pipe_size(&b"1048576\n".to_vec()), Some(1048576));
    assert_eq!(parse_pipe_size(&b"65536".to_vec()), Some(65536));
    assert_eq!(parse_pipe_size(&b"abc".to_vec()), None);
    assert_eq!(parse_pipe_size(&b"".to_vec()), None);
    assert_eq!(parse_pipe_size(&b"\n".to_vec()), None);
    assert_eq!(parse_pipe_size(&b"12 34".to_vec()), None);
}

#[test]
fn capacity_raise_plans() {
    // Below the maximum: one raise, to the maximum.
    assert_eq!(plan_capacity_raise(65536, 1048576), Some(1048576));
    // At or above the maximum: the no-op branch, not an error.
    assert_eq!(plan_capacity_raise(1048576, 1048576), None);
    assert_eq!(plan_capacity_raise(2097152, 1048576), None);
}

#[test]
fn capacity_raise_is_idempotent() {
    // After one raise has taken effect the capacity is the maximum, and the
    // second call in succession plans zero kernel operations.
    let max: i32 = 1048576;
    let raised = match plan_capacity_raise(65536, max) {
        Some(target) => target,
        None => 65536,
    };
    assert_eq!(plan_capacity_raise(raised, max), None);
}

#[test]
fn invalid_descriptor_is_not_a_pipe() {
    // A failed status query counts as not a pipe.
    assert!(!is_pipe(-1));
}

#[test]
fn capacity_raise_on_invalid_descriptor_fails() {
    assert!(set_pipe_max_size(-1, 1048576).is_err());
}

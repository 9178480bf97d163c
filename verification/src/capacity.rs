//! Output capacity tuning for pipe destinations: deciding whether the
//! destination is a pipe, reading the system-wide maximum pipe capacity, and
//! raising the pipe's capacity to that maximum when it is below it.
//!
//! The kernel calls go through trusted wrappers around `nix`; every decision
//! taken on their results is verified.

use crate::args::{
    lemma_digits_value_step_monotone, spec_all_digits, spec_digits_of, spec_digits_value,
    spec_trim_end,
};
use vstd::prelude::*;

verus! {

/// The file-type bits of a `st_mode` word.
pub const MODE_FORMAT_MASK: u32 = 0o170000;

/// The file-type bits naming a FIFO (named or anonymous pipe).
pub const MODE_FIFO: u32 = 0o010000;

/// Whether a `st_mode` word names a FIFO.
pub open spec fn spec_is_fifo(mode: u32) -> bool {
    mode & MODE_FORMAT_MASK == MODE_FIFO
}

/// Relies on nix::sys::stat::fstat: returns the `st_mode` word of the
/// descriptor's file status, or `None` where the query itself fails.
#[verifier::external_body]
fn fstat_mode(fd: i32) -> (r: Option<u32>)
{
    match nix::sys::stat::fstat(fd) {
        Ok(stat) => Some(stat.st_mode),
        Err(_) => None,
    }
}

/// Relies on nix::fcntl::fcntl with `F_GETPIPE_SZ`: returns the pipe's
/// current buffer capacity in bytes, or the system error number on failure.
#[verifier::external_body]
fn pipe_capacity(fd: i32) -> (r: Result<i32, i32>)
{
    match nix::fcntl::fcntl(fd, nix::fcntl::FcntlArg::F_GETPIPE_SZ) {
        Ok(size) => Ok(size),
        Err(errno) => Err(errno as i32),
    }
}

/// Relies on nix::fcntl::fcntl with `F_SETPIPE_SZ`: asks the kernel to set
/// the pipe's buffer capacity; returns the capacity actually set, or the
/// system error number on failure.
#[verifier::external_body]
fn set_pipe_capacity(fd: i32, size: i32) -> (r: Result<i32, i32>)
{
    match nix::fcntl::fcntl(fd, nix::fcntl::FcntlArg::F_SETPIPE_SZ(size)) {
        Ok(actual) => Ok(actual),
        Err(errno) => Err(errno as i32),
    }
}

/// Tests a `st_mode` word for the FIFO file type.
pub fn mode_is_fifo(mode: u32) -> (r: bool)
    ensures
        r == spec_is_fifo(mode),
{
    mode & MODE_FORMAT_MASK == MODE_FIFO
}

/// Whether the descriptor names a FIFO-type destination. A pure query:
/// a failed status query counts as not a pipe.
pub fn is_pipe(fd: i32) -> (r: bool)
{
    match fstat_mode(fd) {
        Some(mode) => mode_is_fifo(mode),
        None => false,
    }
}

/// The capacity-raise decision: the capacity to request where the current
/// one is below the maximum, and no operation at all otherwise.
pub open spec fn spec_raise_plan(current: i32, max: i32) -> Option<i32> {
    if current < max {
        Some(max)
    } else {
        None
    }
}

/// The capacity after a raise: the maximum where the current capacity was
/// below it, else the current capacity untouched.
pub open spec fn spec_raised_capacity(current: i32, max: i32) -> i32 {
    if current < max {
        max
    } else {
        current
    }
}

/// Decides whether a capacity-raise operation is needed: `Some` with the
/// target exactly where the current capacity is below the maximum.
pub fn plan_capacity_raise(current: i32, max: i32) -> (r: Option<i32>)
    ensures
        r == spec_raise_plan(current, max),
{
    if current < max {
        Some(max)
    } else {
        None
    }
}

/// Raising capacity is idempotent: once a raise has brought the capacity to
/// at least the maximum, a second raise plans no kernel operation at all.
pub proof fn lemma_capacity_raise_idempotent(current: i32, max: i32)
    ensures
        spec_raise_plan(spec_raised_capacity(current, max), max) is None,
{
}

/// Raises the pipe's buffer capacity to `max_size` where its current
/// capacity is below it; a no-op (not an error) where it is already at or
/// above it. On failure returns the system error number of the operation
/// that was rejected.
pub fn set_pipe_max_size(fd: i32, max_size: i32) -> (r: Result<(), i32>)
{
    let current = match pipe_capacity(fd) {
        Ok(size) => size,
        Err(errno) => {
            return Err(errno);
        },
    };
    match plan_capacity_raise(current, max_size) {
        Some(target) => match set_pipe_capacity(fd, target) {
            Ok(_) => Ok(()),
            Err(errno) => Err(errno),
        },
        None => Ok(()),
    }
}

/// The value named by the system's pipe-capacity configuration text: its
/// decimal digits, with trailing whitespace (a final newline) ignored, read
/// as an unsigned number that fits a 64-bit word.
pub open spec fn spec_parse_pipe_size(s: Seq<u8>) -> Option<u64> {
    let digits = spec_digits_of(spec_trim_end(s));
    if digits.len() == 0 || !spec_all_digits(digits) || spec_digits_value(digits) > u64::MAX {
        None
    } else {
        Some(spec_digits_value(digits) as u64)
    }
}

/// Parses the content of the system's pipe-capacity configuration text:
/// decimal digits with trailing whitespace ignored; `None` for anything
/// else.
pub fn parse_pipe_size(s: &Vec<u8>) -> (r: Option<u64>)
    ensures
        r == spec_parse_pipe_size(s@),
{
    let mut hi: usize = s.len();
    assert(s@.take(hi as int) =~= s@);
    while hi > 0 && is_space_byte(s[hi - 1])
        invariant
            hi <= s.len(),
            spec_trim_end(s@) == spec_trim_end(s@.take(hi as int)),
        decreases hi,
    {
        assert(s@.take(hi as int).drop_last() =~= s@.take(hi - 1));
        hi = hi - 1;
    }
    let ghost trimmed = spec_trim_end(s@);
    assert(trimmed == s@.take(hi as int));
    let ghost digits_g = spec_digits_of(trimmed);
    let start: usize = if hi >= 1 && s[0] == 0x2b {
        1
    } else {
        0
    };
    assert(digits_g =~= s@.take(hi as int).subrange(start as int, hi as int));
    assert(forall|k: int| 0 <= k < hi - start ==> #[trigger] digits_g[k] == s@[start + k]);
    if hi == start {
        return None;
    }
    let mut acc: u64 = 0;
    let mut i: usize = start;
    assert(digits_g.take(0) =~= Seq::<u8>::empty());
    while i < hi
        invariant
            start <= i <= hi <= s.len(),
            trimmed == spec_trim_end(s@),
            digits_g == spec_digits_of(trimmed),
            digits_g.len() == hi - start,
            forall|k: int| 0 <= k < hi - start ==> #[trigger] digits_g[k] == s@[start + k],
            spec_all_digits(digits_g.take(i - start)),
            acc == spec_digits_value(digits_g.take(i - start)),
        decreases hi - i,
    {
        let b = s[i];
        if b < 0x30 || b > 0x39 {
            assert(digits_g[i - start] == b);
            assert(!spec_all_digits(digits_g));
            return None;
        }
        let d = (b - 0x30) as u64;
        let ghost acc_old = acc;
        if acc > (u64::MAX - d) / 10 {
            proof {
                let t = digits_g.take(i - start + 1);
                assert(t.drop_last() =~= digits_g.take(i - start));
                assert(t.last() == digits_g[i - start] == b);
                if spec_all_digits(digits_g) {
                    assert(spec_digits_value(t) == acc_old * 10 + d);
                    assert(acc_old * 10 + d > u64::MAX) by (nonlinear_arith)
                        requires
                            acc_old > (u64::MAX - d) / 10,
                            0 <= d <= 9,
                            acc_old <= u64::MAX,
                    ;
                    lemma_digits_value_step_monotone(digits_g, i - start + 1);
                    assert(spec_digits_value(digits_g) > u64::MAX);
                }
            }
            return None;
        }
        acc = acc * 10 + d;
        proof {
            let t = digits_g.take(i - start + 1);
            assert(t.drop_last() =~= digits_g.take(i - start));
            assert(t.last() == digits_g[i - start] == b);
            assert(spec_all_digits(t));
            assert(acc == spec_digits_value(t));
        }
        i = i + 1;
    }
    assert(digits_g.take(hi - start) =~= digits_g);
    Some(acc)
}

/// Tests for an ASCII whitespace byte, as trailing-whitespace trimming
/// strips it.
fn is_space_byte(b: u8) -> (r: bool)
    ensures
        r == crate::args::spec_is_space(b),
{
    b == 0x20 || (0x09 <= b && b <= 0x0d)
}

} // verus!

//! Decisions taken on the command-line surface: parsing the numeric
//! arguments, recognising the codec selector, and classifying the stream
//! errors that count as a clean shutdown.

use vstd::prelude::*;

verus! {

/// The numeric value of a string of decimal digits, most significant first.
pub open spec fn spec_digits_value(s: Seq<u8>) -> int
    decreases s.len(),
{
    if s.len() == 0 {
        0
    } else {
        spec_digits_value(s.drop_last()) * 10 + (s.last() - 0x30)
    }
}

/// Every byte is a decimal digit.
pub open spec fn spec_all_digits(s: Seq<u8>) -> bool {
    forall|i: int| 0 <= i < s.len() ==> 0x30 <= #[trigger] s[i] <= 0x39
}

/// The digits of a numeric argument: everything after one optional leading
/// plus sign.
pub open spec fn spec_digits_of(s: Seq<u8>) -> Seq<u8> {
    if s.len() >= 1 && s[0] == 0x2b {
        s.drop_first()
    } else {
        s
    }
}

/// The 32-bit value a numeric argument names: defined exactly when, after an
/// optional leading plus sign, the argument is one or more decimal digits
/// whose value fits.
pub open spec fn spec_parse_u32(s: Seq<u8>) -> Option<u32> {
    let digits = spec_digits_of(s);
    if digits.len() == 0 || !spec_all_digits(digits) || spec_digits_value(digits) > u32::MAX {
        None
    } else {
        Some(spec_digits_value(digits) as u32)
    }
}

/// A longer run of digits never names a smaller value.
pub(crate) proof fn lemma_digits_value_step_monotone(s: Seq<u8>, n: int)
    requires
        0 <= n <= s.len(),
        spec_all_digits(s),
    ensures
        spec_digits_value(s.take(n)) <= spec_digits_value(s),
    decreases s.len() - n,
{
    if n == s.len() {
        assert(s.take(n) =~= s);
    } else {
        let t = s.take(n + 1);
        assert(t.drop_last() =~= s.take(n));
        assert(t.last() == s[n]);
        assert(spec_digits_value(s.take(n)) >= 0) by {
            lemma_digits_value_nonneg(s.take(n));
        }
        assert(spec_digits_value(t) == spec_digits_value(s.take(n)) * 10 + (s[n] - 0x30));
        assert(spec_digits_value(s.take(n)) * 10 >= spec_digits_value(s.take(n))) by (nonlinear_arith)
            requires
                spec_digits_value(s.take(n)) >= 0,
        ;
        lemma_digits_value_step_monotone(s, n + 1);
    }
}

/// The value of a digit string is never negative.
pub(crate) proof fn lemma_digits_value_nonneg(s: Seq<u8>)
    requires
        spec_all_digits(s),
    ensures
        spec_digits_value(s) >= 0,
    decreases s.len(),
{
    if s.len() > 0 {
        assert(spec_all_digits(s.drop_last()));
        lemma_digits_value_nonneg(s.drop_last());
        assert(spec_digits_value(s.drop_last()) * 10 >= 0) by (nonlinear_arith)
            requires
                spec_digits_value(s.drop_last()) >= 0,
        ;
    }
}

/// Parses a decimal numeric argument: `Some` exactly for an optional plus
/// sign followed by decimal digits whose value fits in 32 bits, `None` for
/// anything else.
pub fn parse_u32_arg(s: &Vec<u8>) -> (r: Option<u32>)
    ensures
        r == spec_parse_u32(s@),
{
    let ghost digits_g = spec_digits_of(s@);
    let start: usize = if s.len() >= 1 && s[0] == 0x2b {
        1
    } else {
        0
    };
    assert(digits_g =~= s@.skip(start as int));
    if s.len() == start {
        return None;
    }
    let mut acc: u64 = 0;
    let mut i: usize = start;
    assert(digits_g.take(0) =~= Seq::<u8>::empty());
    while i < s.len()
        invariant
            start <= i <= s.len(),
            digits_g == spec_digits_of(s@),
            digits_g == s@.skip(start as int),
            spec_all_digits(digits_g.take(i - start)),
            acc == spec_digits_value(digits_g.take(i - start)),
            acc <= u32::MAX,
        decreases s.len() - i,
    {
        let b = s[i];
        if b < 0x30 || b > 0x39 {
            assert(digits_g[i - start] == b);
            assert(!spec_all_digits(digits_g));
            return None;
        }
        let d = (b - 0x30) as u64;
        acc = acc * 10 + d;
        proof {
            let t = digits_g.take(i - start + 1);
            assert(t.drop_last() =~= digits_g.take(i - start));
            assert(t.last() == digits_g[i - start] == b);
            assert(spec_all_digits(t));
            assert(acc == spec_digits_value(t));
        }
        i = i + 1;
        if acc > u32::MAX as u64 {
            proof {
                if spec_all_digits(digits_g) {
                    lemma_digits_value_step_monotone(digits_g, i - start);
                    assert(spec_digits_value(digits_g) > u32::MAX);
                }
            }
            return None;
        }
    }
    assert(digits_g.take(s@.len() - start) =~= digits_g);
    Some(acc as u32)
}

/// An ASCII whitespace byte, as argument trimming strips it.
pub open spec fn spec_is_space(b: u8) -> bool {
    b == 0x20 || (0x09 <= b <= 0x0d)
}

/// The argument without its leading whitespace.
pub open spec fn spec_trim_start(s: Seq<u8>) -> Seq<u8>
    decreases s.len(),
{
    if s.len() > 0 && spec_is_space(s[0]) {
        spec_trim_start(s.drop_first())
    } else {
        s
    }
}

/// The argument without its trailing whitespace.
pub open spec fn spec_trim_end(s: Seq<u8>) -> Seq<u8>
    decreases s.len(),
{
    if s.len() > 0 && spec_is_space(s.last()) {
        spec_trim_end(s.drop_last())
    } else {
        s
    }
}

/// The byte with an ASCII capital letter folded to its small form.
pub open spec fn spec_ascii_lower(b: u8) -> u8 {
    if 0x41 <= b <= 0x5a {
        (b + 0x20) as u8
    } else {
        b
    }
}

/// Whether a codec argument selects the secondary codec: after trimming
/// surrounding whitespace it reads `vp9` in any letter case.
pub open spec fn spec_selects_vp9(s: Seq<u8>) -> bool {
    let t = spec_trim_end(spec_trim_start(s));
    &&& t.len() == 3
    &&& spec_ascii_lower(t[0]) == 0x76
    &&& spec_ascii_lower(t[1]) == 0x70
    &&& t[2] == 0x39
}

/// Decides the codec selection of an optional trailing argument:
/// case-insensitively `vp9`, ignoring surrounding whitespace, selects the
/// secondary codec.
pub fn selects_vp9(s: &Vec<u8>) -> (r: bool)
    ensures
        r == spec_selects_vp9(s@),
{
    let mut lo: usize = 0;
    assert(s@.skip(0) =~= s@);
    while lo < s.len() && is_space(s[lo])
        invariant
            lo <= s.len(),
            spec_trim_start(s@) == spec_trim_start(s@.skip(lo as int)),
        decreases s.len() - lo,
    {
        assert(s@.skip(lo as int).drop_first() =~= s@.skip(lo + 1));
        lo = lo + 1;
    }
    let ghost started = s@.skip(lo as int);
    assert(spec_trim_start(s@) == started);
    let mut hi: usize = s.len();
    assert(started.take(hi - lo) =~= started);
    while hi > lo && is_space(s[hi - 1])
        invariant
            lo <= hi <= s.len(),
            started == s@.skip(lo as int),
            spec_trim_end(started) == spec_trim_end(started.take(hi - lo)),
        decreases hi,
    {
        assert(started.take(hi - lo).drop_last() =~= started.take(hi - 1 - lo));
        hi = hi - 1;
    }
    let ghost trimmed = spec_trim_end(spec_trim_start(s@));
    proof {
        assert(trimmed == started.take(hi - lo));
    }
    if hi - lo != 3 {
        return false;
    }
    let r = ascii_lower(s[lo]) == 0x76 && ascii_lower(s[lo + 1]) == 0x70 && s[lo + 2] == 0x39;
    assert(trimmed[0] == s@[lo as int] && trimmed[1] == s@[lo + 1] && trimmed[2] == s@[lo + 2]);
    r
}

/// Tests for an ASCII whitespace byte.
fn is_space(b: u8) -> (r: bool)
    ensures
        r == spec_is_space(b),
{
    b == 0x20 || (0x09 <= b && b <= 0x0d)
}

/// Folds an ASCII capital letter to its small form.
fn ascii_lower(b: u8) -> (r: u8)
    ensures
        r == spec_ascii_lower(b),
{
    if 0x41 <= b && b <= 0x5a {
        b + 0x20
    } else {
        b
    }
}

/// The stream error conditions the pipeline distinguishes when it shuts
/// down: the two expected terminations, and everything else.
#[derive(Clone, Copy, PartialEq, Eq, Structural, Debug)]
pub enum StreamErrorKind {
    /// The input ended before a full frame: clean end of stream.
    UnexpectedEof,
    /// The destination's reader closed: clean consumer-side shutdown.
    BrokenPipe,
    /// Any other failure.
    Other,
}

/// Whether a run that stopped on this error condition still counts as a
/// normal shutdown: exactly clean end of input and a closed destination
/// reader do.
pub fn is_clean_shutdown(kind: StreamErrorKind) -> (r: bool)
    ensures
        r == (kind is UnexpectedEof || kind is BrokenPipe),
{
    match kind {
        StreamErrorKind::UnexpectedEof => true,
        StreamErrorKind::BrokenPipe => true,
        StreamErrorKind::Other => false,
    }
}

} // verus!

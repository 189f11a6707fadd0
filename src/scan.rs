//! Output of the external scanning utility: one comma-delimited text line per
//! sweep, whose first fields describe the sweep and whose remaining fields are
//! levels in dB.
//!
//! Levels are read as whole hundredths of a dB: digits beyond the second
//! decimal place are dropped.
use crate::decimal::{
    all_digits, decimal_chars, decimal_text, digits_to_u64, digits_value, is_digit,
    signed_decimal_chars, signed_decimal_text,
};
use crate::frequency::{MAX_KHZ, MIN_KHZ};
use vstd::prelude::*;
use vstd::string::StringSliceAdditionalSpecFns;

verus! {

/// Number of leading descriptive fields of a line (date, time, range, step, samples).
pub const LEADING_FIELDS: usize = 6;

/// Name of the scanning utility's executable.
pub const SCANNER_PROGRAM: &'static str = "rtl_power";

/// A line of the utility's error output that starts with this ends the session.
pub const ERROR_MARKER: &'static str = "Error:";

/// The utility's report that no device is attached; it ends the session.
pub const NO_DEVICE_MARKER: &'static str = "No supported devices found";

/// Half the width of the scanned range, in kHz.
pub const SCAN_HALF_WIDTH_KHZ: u32 = 100;

/// The field delimiter, `,`.
pub const COMMA: u8 = 44;

/// The blank that may surround a field, ` `.
pub const SPACE: u8 = 32;

/// The minus sign, `-`.
pub const MINUS: u8 = 45;

/// The plus sign, `+`.
pub const PLUS: u8 = 43;

/// The decimal point, `.`.
pub const DOT: u8 = 46;

/// The fields of a line: the text between delimiters, from first to last.
pub open spec fn split_fields(s: Seq<u8>) -> Seq<Seq<u8>>
    decreases s.len(),
{
    if s.len() == 0 {
        seq![Seq::<u8>::empty()]
    } else {
        let p = split_fields(s.drop_last());
        if s.last() == COMMA {
            p.push(Seq::<u8>::empty())
        } else {
            p.update(p.len() - 1, p.last().push(s.last()))
        }
    }
}

/// A field without its leading blanks.
pub open spec fn trim_start(f: Seq<u8>) -> Seq<u8>
    decreases f.len(),
{
    if f.len() > 0 && f[0] == SPACE {
        trim_start(f.drop_first())
    } else {
        f
    }
}

/// A field without its trailing blanks.
pub open spec fn trim_end(f: Seq<u8>) -> Seq<u8>
    decreases f.len(),
{
    if f.len() > 0 && f.last() == SPACE {
        trim_end(f.drop_last())
    } else {
        f
    }
}

/// The field's text is negative: it starts with `-`.
pub open spec fn is_negative(t: Seq<u8>) -> bool {
    t.len() > 0 && t[0] == MINUS
}

/// The text without its sign.
pub open spec fn unsigned_part(t: Seq<u8>) -> Seq<u8> {
    if t.len() > 0 && (t[0] == MINUS || t[0] == PLUS) {
        t.drop_first()
    } else {
        t
    }
}

/// Number of leading decimal digits of `u`.
pub open spec fn digit_run(u: Seq<u8>) -> nat
    decreases u.len(),
{
    if u.len() > 0 && is_digit(u[0]) {
        1 + digit_run(u.drop_first())
    } else {
        0
    }
}

/// The first two decimal places written by the digits `fr`, in hundredths.
pub open spec fn hundredths(fr: Seq<u8>) -> nat {
    if fr.len() == 0 {
        0
    } else if fr.len() == 1 {
        ((fr[0] - 48) * 10) as nat
    } else {
        ((fr[0] - 48) * 10 + (fr[1] - 48)) as nat
    }
}

/// The magnitude, in hundredths, that an unsigned decimal `u` writes: digits,
/// optionally followed by `.` and more digits.
pub open spec fn magnitude(u: Seq<u8>) -> Option<nat> {
    let k = digit_run(u) as int;
    if k == 0 {
        None
    } else if k == u.len() {
        Some(digits_value(u) * 100)
    } else if u[k] == DOT && k + 1 < u.len() && all_digits(u.skip(k + 1)) {
        Some(digits_value(u.take(k)) * 100 + hundredths(u.skip(k + 1)))
    } else {
        None
    }
}

/// The level, in hundredths of a dB, that a field writes; `None` where the
/// field is no decimal number or its level does not fit in an `i64`.
pub open spec fn field_level(f: Seq<u8>) -> Option<i64> {
    let t = trim_end(trim_start(f));
    match magnitude(unsigned_part(t)) {
        Some(m) => if m <= i64::MAX {
            if is_negative(t) {
                Some((-m) as i64)
            } else {
                Some(m as i64)
            }
        } else {
            None
        },
        None => None,
    }
}

/// The larger of two optional levels; a missing one counts for nothing.
pub open spec fn louder(a: Option<i64>, b: Option<i64>) -> Option<i64> {
    match (a, b) {
        (Some(x), Some(y)) => Some(if x >= y { x } else { y }),
        (Some(x), None) => Some(x),
        (None, _) => b,
    }
}

/// The largest level among the fields that are numbers.
pub open spec fn best_level(fs: Seq<Seq<u8>>) -> Option<i64>
    decreases fs.len(),
{
    if fs.len() == 0 {
        None
    } else {
        louder(best_level(fs.drop_last()), field_level(fs.last()))
    }
}

/// The fields after the leading descriptive ones.
pub open spec fn trailing_fields(fs: Seq<Seq<u8>>) -> Seq<Seq<u8>> {
    if fs.len() <= LEADING_FIELDS {
        Seq::empty()
    } else {
        fs.subrange(LEADING_FIELDS as int, fs.len() as int)
    }
}

/// The sample that a line yields: the largest level among its trailing fields.
pub open spec fn line_peak(s: Seq<u8>) -> Option<i64> {
    best_level(trailing_fields(split_fields(s)))
}

/// Reads one field, `s[from..to]`, as a level in hundredths of a dB.
pub fn parse_field(s: &[u8], from: usize, to: usize) -> (r: Option<i64>)
    requires
        from <= to <= s@.len(),
    ensures
        r == field_level(s@.subrange(from as int, to as int)),
{
    let ghost f = s@.subrange(from as int, to as int);
    let mut a: usize = from;
    while a < to && s[a] == SPACE
        invariant
            from <= a <= to <= s@.len(),
            trim_start(f) == trim_start(s@.subrange(a as int, to as int)),
        decreases to - a,
    {
        assert(s@.subrange(a as int, to as int).drop_first() =~= s@.subrange(a + 1, to as int));
        a = a + 1;
    }
    assert(trim_start(f) == s@.subrange(a as int, to as int));
    let mut b: usize = to;
    while b > a && s[b - 1] == SPACE
        invariant
            from <= a <= b <= to <= s@.len(),
            trim_end(trim_start(f)) == trim_end(s@.subrange(a as int, b as int)),
        decreases b - a,
    {
        assert(s@.subrange(a as int, b as int).drop_last() =~= s@.subrange(a as int, b - 1));
        b = b - 1;
    }
    let ghost t = s@.subrange(a as int, b as int);
    assert(trim_end(trim_start(f)) == t);
    let negative = a < b && s[a] == MINUS;
    let u0: usize = if a < b && (s[a] == MINUS || s[a] == PLUS) { a + 1 } else { a };
    let ghost u = s@.subrange(u0 as int, b as int);
    assert(unsigned_part(t) =~= u);
    assert(negative == is_negative(t));
    let mut k: usize = u0;
    while k < b && s[k] >= 48u8 && s[k] <= 57u8
        invariant
            u0 <= k <= b <= s@.len(),
            u == s@.subrange(u0 as int, b as int),
            f == s@.subrange(from as int, to as int),
            t == s@.subrange(a as int, b as int),
            trim_end(trim_start(f)) == t,
            unsigned_part(t) == u,
            all_digits(s@.subrange(u0 as int, k as int)),
            digit_run(u) == (k - u0) + digit_run(s@.subrange(k as int, b as int)),
        decreases b - k,
    {
        assert(s@.subrange(k as int, b as int).drop_first() =~= s@.subrange(k + 1, b as int));
        assert forall|j: int| 0 <= j < k + 1 - u0 implies is_digit(
            #[trigger] s@.subrange(u0 as int, k + 1)[j],
        ) by {
            if j < k - u0 {
                assert(s@.subrange(u0 as int, k + 1)[j] == s@.subrange(u0 as int, k as int)[j]);
            }
        }
        k = k + 1;
    }
    assert(digit_run(u) == k - u0);
    assert(u.take(k - u0) =~= s@.subrange(u0 as int, k as int));
    if k == u0 {
        return None;
    }
    let hund: u64;
    if k < b {
        if s[k] != DOT || k + 1 >= b {
            return None;
        }
        let mut j: usize = k + 1;
        while j < b
            invariant
                u0 < k,
                k + 1 <= j <= b <= s@.len(),
                all_digits(s@.subrange(k + 1, j as int)),
                f == s@.subrange(from as int, to as int),
                t == s@.subrange(a as int, b as int),
                u == s@.subrange(u0 as int, b as int),
                trim_end(trim_start(f)) == t,
                unsigned_part(t) == u,
                digit_run(u) == k - u0,
                s@[k as int] == DOT,
            decreases b - j,
        {
            if s[j] < 48u8 || s[j] > 57u8 {
                proof {
                    assert(u.skip(k + 1 - u0)[j - k - 1] == s@[j as int]);
                }
                return None;
            }
            assert forall|i: int| 0 <= i < j + 1 - (k + 1) implies is_digit(
                #[trigger] s@.subrange(k + 1, j + 1)[i],
            ) by {
                if i < j - (k + 1) {
                    assert(s@.subrange(k + 1, j + 1)[i] == s@.subrange(k + 1, j as int)[i]);
                }
            }
            j = j + 1;
        }
        assert(u.skip(k + 1 - u0) =~= s@.subrange(k + 1, b as int));
        let d0 = (s[k + 1] - 48u8) as u64;
        if k + 2 < b {
            let d1 = (s[k + 2] - 48u8) as u64;
            hund = d0 * 10 + d1;
        } else {
            hund = d0 * 10;
        }
    } else {
        assert(u.take(k - u0) =~= u);
        hund = 0;
    }
    let whole = match digits_to_u64(s, u0, k) {
        None => {
            return None;
        },
        Some(v) => v,
    };
    let scaled = match whole.checked_mul(100) {
        None => {
            return None;
        },
        Some(m) => m,
    };
    let m = match scaled.checked_add(hund) {
        None => {
            return None;
        },
        Some(m) => m,
    };
    if m > i64::MAX as u64 {
        return None;
    }
    if negative {
        Some(-(m as i64))
    } else {
        Some(m as i64)
    }
}

/// `s` begins with `p`.
pub open spec fn starts_with(s: Seq<u8>, p: Seq<u8>) -> bool {
    p.len() <= s.len() && s.take(p.len() as int) == p
}

/// Whether the bytes `s` begin with the bytes `p`.
pub fn has_prefix(s: &[u8], p: &[u8]) -> (r: bool)
    ensures
        r == starts_with(s@, p@),
{
    if p.len() > s.len() {
        return false;
    }
    let mut i: usize = 0;
    while i < p.len()
        invariant
            p@.len() <= s@.len(),
            i <= p@.len(),
            forall|j: int| 0 <= j < i ==> s@[j] == p@[j],
        decreases p@.len() - i,
    {
        if s[i] != p[i] {
            assert(s@.take(p@.len() as int)[i as int] != p@[i as int]);
            return false;
        }
        i = i + 1;
    }
    assert(s@.take(p@.len() as int) =~= p@);
    true
}

/// A line of the utility's error output reports a failure that ends the session.
pub open spec fn is_fatal_line(line: Seq<u8>) -> bool {
    starts_with(line, ERROR_MARKER.spec_bytes()) || starts_with(line, NO_DEVICE_MARKER.spec_bytes())
}

/// Whether a line of the utility's error output reports a failure that ends
/// the session.
pub fn is_fatal_stderr_line(line: &str) -> (r: bool)
    ensures
        r == is_fatal_line(line.spec_bytes()),
{
    has_prefix(line.as_bytes(), ERROR_MARKER.as_bytes()) || has_prefix(
        line.as_bytes(),
        NO_DEVICE_MARKER.as_bytes(),
    )
}

/// The range argument for a scan around `khz`: `{khz-100}K:{khz+100}K:1k`.
pub open spec fn range_argument(khz: int) -> Seq<char> {
    decimal_chars((khz - SCAN_HALF_WIDTH_KHZ) as nat) + "K:"@ + decimal_chars(
        (khz + SCAN_HALF_WIDTH_KHZ) as nat,
    ) + "K:1k"@
}

/// The arguments that run the scanning utility around `khz` at 1 kHz
/// resolution, with 1 s integration and the given gain:
/// `-f {khz-100}K:{khz+100}K:1k -i 1 -g {gain}`.
pub fn scan_arguments(khz: u32, gain: i16) -> (r: Vec<String>)
    requires
        MIN_KHZ <= khz <= MAX_KHZ,
    ensures
        r@.len() == 6,
        r@[0]@ == "-f"@,
        r@[1]@ == range_argument(khz as int),
        r@[2]@ == "-i"@,
        r@[3]@ == "1"@,
        r@[4]@ == "-g"@,
        r@[5]@ == signed_decimal_chars(gain as int),
{
    let mut range = decimal_text((khz - SCAN_HALF_WIDTH_KHZ) as u64);
    range.append("K:");
    let upper = decimal_text((khz + SCAN_HALF_WIDTH_KHZ) as u64);
    range.append(upper.as_str());
    range.append("K:1k");
    let mut r: Vec<String> = Vec::new();
    r.push(String::from_str("-f"));
    r.push(range);
    r.push(String::from_str("-i"));
    r.push(String::from_str("1"));
    r.push(String::from_str("-g"));
    r.push(signed_decimal_text(gain));
    r
}

/// How the utility's output ended without being asked to stop.
#[derive(Debug, Clone, Copy, PartialEq, Eq, Structural)]
pub enum OutputEnd {
    /// No line ever yielded a sample.
    NeverProduced,
    /// Samples were produced, then the output ended.
    ExitedMidRun,
}

/// The reader of the utility's output: turns lines into samples and
/// remembers whether any was produced.
#[derive(Debug, Clone, Copy, PartialEq, Eq, Structural)]
pub struct ScanOutput {
    /// Some line has yielded a sample.
    pub produced: bool,
}

impl ScanOutput {
    /// A reader that has seen no line.
    pub fn new() -> (r: ScanOutput)
        ensures
            !r.produced,
    {
        ScanOutput { produced: false }
    }

    /// Reads one line; its sample, if any, is to be published.
    pub fn take_line(&mut self, line: &str) -> (r: Option<i64>)
        ensures
            r == line_peak(line.spec_bytes()),
            final(self).produced == (old(self).produced || r is Some),
    {
        let r = parse_scan_line(line);
        if r.is_some() {
            self.produced = true;
        }
        r
    }

    /// What the end of the output means, given what was read before it.
    pub fn end(&self) -> (r: OutputEnd)
        ensures
            r == (if self.produced {
                OutputEnd::ExitedMidRun
            } else {
                OutputEnd::NeverProduced
            }),
    {
        if self.produced {
            OutputEnd::ExitedMidRun
        } else {
            OutputEnd::NeverProduced
        }
    }
}

/// `v` is the largest level among the fields of `fs` that are numbers, or
/// `None` where none is.
pub open spec fn is_largest_level(fs: Seq<Seq<u8>>, v: Option<i64>) -> bool {
    match v {
        None => forall|j: int| 0 <= j < fs.len() ==> #[trigger] field_level(fs[j]) is None,
        Some(x) => {
            &&& exists|j: int| 0 <= j < fs.len() && #[trigger] field_level(fs[j]) == Some(x)
            &&& forall|j: int|
                0 <= j < fs.len() && (#[trigger] field_level(fs[j])) is Some ==> field_level(
                    fs[j],
                )->0 <= x
        },
    }
}

proof fn lemma_best_level_is_largest(fs: Seq<Seq<u8>>)
    ensures
        is_largest_level(fs, best_level(fs)),
    decreases fs.len(),
{
    if fs.len() > 0 {
        let p = fs.drop_last();
        lemma_best_level_is_largest(p);
        assert forall|j: int| 0 <= j < p.len() implies #[trigger] p[j] == fs[j] by {}
        let last = fs.len() - 1;
        assert(fs[last] == fs.last());
        let b = best_level(fs);
        match best_level(p) {
            None => {
                if field_level(fs[last]) is None {
                    assert forall|j: int| 0 <= j < fs.len() implies #[trigger] field_level(
                        fs[j],
                    ) is None by {
                        if j < last {
                            assert(p[j] == fs[j]);
                        }
                    }
                } else {
                    assert(field_level(fs[last]) == b);
                    assert forall|j: int|
                        0 <= j < fs.len() && (#[trigger] field_level(fs[j])) is Some implies field_level(
                            fs[j],
                        )->0 <= b->0 by {
                        if j < last {
                            assert(p[j] == fs[j]);
                        }
                    }
                }
            },
            Some(x) => {
                let j0 = choose|j: int| 0 <= j < p.len() && #[trigger] field_level(p[j]) == Some(x);
                assert(field_level(fs[j0]) == Some(x));
                if b != Some(x) {
                    assert(field_level(fs[last]) == b);
                }
                assert forall|j: int|
                    0 <= j < fs.len() && (#[trigger] field_level(fs[j])) is Some implies field_level(
                        fs[j],
                    )->0 <= b->0 by {
                    if j < last {
                        assert(p[j] == fs[j]);
                    }
                }
            },
        }
    }
}

/// The sample of a line is the largest level among its trailing fields that
/// are numbers: one of them has it and none is louder. A line none of whose
/// trailing fields is a number yields no sample.
pub proof fn line_peak_is_largest_field(s: Seq<u8>)
    ensures
        is_largest_level(trailing_fields(split_fields(s)), line_peak(s)),
{
    lemma_best_level_is_largest(trailing_fields(split_fields(s)));
}

/// The trailing fields after one more field is appended.
proof fn lemma_trailing_push(done: Seq<Seq<u8>>, f: Seq<u8>)
    ensures
        best_level(trailing_fields(done.push(f))) == if done.len() >= LEADING_FIELDS {
            louder(best_level(trailing_fields(done)), field_level(f))
        } else {
            None::<i64>
        },
{
    let d = done.push(f);
    if done.len() >= LEADING_FIELDS {
        assert(trailing_fields(d).drop_last() =~= trailing_fields(done));
        assert(trailing_fields(d).last() == f);
    } else {
        assert(trailing_fields(d) =~= Seq::<Seq<u8>>::empty());
    }
}

/// Reads one line of the scanning utility's output: the sample is the largest
/// level among the fields after the leading descriptive ones, or `None` where
/// none of them is a number.
pub fn parse_scan_line(line: &str) -> (r: Option<i64>)
    ensures
        r == line_peak(line.spec_bytes()),
{
    let s = line.as_bytes();
    let n = s.len();
    let mut start: usize = 0;
    let mut count: usize = 0;
    let mut best: Option<i64> = None;
    let ghost mut done: Seq<Seq<u8>> = Seq::empty();
    let mut i: usize = 0;
    assert(s@.take(0) =~= Seq::<u8>::empty());
    assert(s@.subrange(0, 0) =~= Seq::<u8>::empty());
    while i < n
        invariant
            n == s@.len(),
            s@ == line.spec_bytes(),
            start <= i <= n,
            count == done.len(),
            count <= i,
            split_fields(s@.take(i as int)) == done.push(s@.subrange(start as int, i as int)),
            best == best_level(trailing_fields(done)),
        decreases n - i,
    {
        let ghost cur = s@.subrange(start as int, i as int);
        assert(s@.take(i + 1).drop_last() =~= s@.take(i as int));
        assert(s@.take(i + 1).last() == s@[i as int]);
        if s[i] == COMMA {
            let level = if count >= LEADING_FIELDS {
                parse_field(s, start, i)
            } else {
                None
            };
            proof {
                lemma_trailing_push(done, cur);
                done = done.push(cur);
                assert(s@.subrange(i + 1, i + 1) =~= Seq::<u8>::empty());
            }
            if count >= LEADING_FIELDS {
                best = match (best, level) {
                    (Some(x), Some(y)) => Some(if x >= y { x } else { y }),
                    (Some(x), None) => Some(x),
                    (None, _) => level,
                };
            }
            count = count + 1;
            start = i + 1;
        } else {
            proof {
                assert(cur.push(s@[i as int]) =~= s@.subrange(start as int, i + 1));
                assert(done.push(cur).update(done.len() as int, cur.push(s@[i as int]))
                    =~= done.push(s@.subrange(start as int, i + 1)));
            }
        }
        i = i + 1;
    }
    assert(s@.take(n as int) =~= s@);
    let level = if count >= LEADING_FIELDS {
        parse_field(s, start, n)
    } else {
        None
    };
    proof {
        lemma_trailing_push(done, s@.subrange(start as int, n as int));
    }
    if count >= LEADING_FIELDS {
        match (best, level) {
            (Some(x), Some(y)) => Some(if x >= y { x } else { y }),
            (Some(x), None) => Some(x),
            (None, _) => level,
        }
    } else {
        None
    }
}

} // verus!

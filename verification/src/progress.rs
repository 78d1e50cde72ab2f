//! The render engine's progress protocol: ffmpeg periodically rewrites a
//! status line such as `frame= 150 fps= 30 time=00:00:05.00 speed=1.50x`
//! on its diagnostic stream. This module decodes such lines into
//! structured progress events with integer units: thousandths of a
//! percent, thousandths of a frame per second, and microseconds.

use vstd::prelude::*;
use vstd::string::StrSliceExecFns;
use vstd::string::StringExecFns;

verus! {

// ---------------------------------------------------------------------------
// Progress events
// ---------------------------------------------------------------------------

/// A structured progress snapshot parsed from one status line.
pub struct RenderProgress {
    /// Completed share of the export in thousandths of a percent,
    /// capped at 100 percent.
    pub percent_milli: u64,
    /// Frames rendered so far.
    pub frame: u64,
    /// Instantaneous frame rate in thousandths of a frame per second.
    pub fps_milli: u64,
    /// The raw speed token, e.g. `1.50x`.
    pub speed: String,
    /// Estimated remaining wall time in microseconds, when the speed is
    /// known and positive.
    pub eta_us: Option<i64>,
}

/// Mathematical view of a progress snapshot.
#[verifier::ext_equal]
pub ghost struct ProgressV {
    pub percent_milli: u64,
    pub frame: u64,
    pub fps_milli: u64,
    pub speed: Seq<char>,
    pub eta_us: Option<i64>,
}

impl View for RenderProgress {
    type V = ProgressV;

    open spec fn view(&self) -> ProgressV {
        ProgressV {
            percent_milli: self.percent_milli,
            frame: self.frame,
            fps_milli: self.fps_milli,
            speed: self.speed@,
            eta_us: self.eta_us,
        }
    }
}

impl DeepView for RenderProgress {
    type V = ProgressV;

    open spec fn deep_view(&self) -> ProgressV {
        self.view()
    }
}

// ---------------------------------------------------------------------------
// Spec layer: text scanning
// ---------------------------------------------------------------------------

/// Whether `key` occurs in `s` starting at index `i`.
pub open spec fn has_key_at(s: Seq<char>, key: Seq<char>, i: int) -> bool {
    0 <= i && i + key.len() <= s.len() && forall|x: int|
        0 <= x < key.len() ==> s[i + x] == key[x]
}

/// Whether `i` is the first occurrence of `key` in `s`.
pub open spec fn first_key_at(s: Seq<char>, key: Seq<char>, i: int) -> bool {
    has_key_at(s, key, i) && forall|j: int| 0 <= j < i ==> !has_key_at(s, key, j)
}

/// The first index where `key` occurs as a contiguous subsequence.
pub open spec fn find_sub(s: Seq<char>, key: Seq<char>) -> Option<int> {
    if exists|i: int| first_key_at(s, key, i) {
        Some(choose|i: int| first_key_at(s, key, i))
    } else {
        None
    }
}

/// First occurrences are unique, so a witnessed one is the answer.
pub proof fn lemma_find_sub_is(s: Seq<char>, key: Seq<char>, i: int)
    requires
        first_key_at(s, key, i),
    ensures
        find_sub(s, key) == Some(i),
{
    let c = choose|i: int| first_key_at(s, key, i);
    if c < i {
        assert(has_key_at(s, key, c));
        assert(false);
    } else if i < c {
        assert(has_key_at(s, key, i));
        assert(false);
    }
}

/// ASCII whitespace, the only whitespace the render engine emits.
pub open spec fn is_space(c: char) -> bool {
    c == ' ' || c == '\t' || c == '\n' || c == '\r'
}

/// The sequence with its leading whitespace removed.
pub open spec fn skip_spaces(s: Seq<char>) -> Seq<char>
    decreases s.len(),
{
    if s.len() > 0 && is_space(s[0]) {
        skip_spaces(s.drop_first())
    } else {
        s
    }
}

/// The sequence with its trailing whitespace removed.
pub open spec fn skip_spaces_end(s: Seq<char>) -> Seq<char>
    decreases s.len(),
{
    if s.len() > 0 && is_space(s.last()) {
        skip_spaces_end(s.drop_last())
    } else {
        s
    }
}

/// The sequence with leading and trailing whitespace removed.
pub open spec fn trim_spaces(s: Seq<char>) -> Seq<char> {
    skip_spaces_end(skip_spaces(s))
}

/// The maximal whitespace-free prefix.
pub open spec fn take_token(s: Seq<char>) -> Seq<char>
    decreases s.len(),
{
    if s.len() > 0 && !is_space(s[0]) {
        seq![s[0]] + take_token(s.drop_first())
    } else {
        Seq::empty()
    }
}

/// The value following the first occurrence of `key`: whitespace after
/// the key is skipped, the value runs to the next whitespace, and an
/// empty value counts as absent.
pub open spec fn extract_value_spec(s: Seq<char>, key: Seq<char>) -> Option<Seq<char>> {
    match find_sub(s, key) {
        None => None,
        Some(i) => {
            let tok = take_token(skip_spaces(s.subrange(i + key.len(), s.len() as int)));
            if tok.len() == 0 {
                None
            } else {
                Some(tok)
            }
        },
    }
}

// ---------------------------------------------------------------------------
// Spec layer: numeric tokens
// ---------------------------------------------------------------------------

/// A digit's numeric value, or an out-of-range marker.
pub open spec fn digit_of(c: char) -> int {
    c as int - 48
}

/// Folds a plain digit string into its value; `None` on a non-digit or
/// on 64-bit overflow. The empty string folds to zero.
pub open spec fn fold_digits(s: Seq<char>) -> Option<u64>
    decreases s.len(),
{
    if s.len() == 0 {
        Some(0u64)
    } else {
        match fold_digits(s.drop_last()) {
            None => None,
            Some(acc) => {
                let d = digit_of(s.last());
                if !(0 <= d <= 9) {
                    None
                } else if acc as int * 10 + d > u64::MAX {
                    None
                } else {
                    Some((acc * 10 + d as u64) as u64)
                }
            },
        }
    }
}

/// A non-empty plain digit string's value.
pub open spec fn parse_u64_spec(s: Seq<char>) -> Option<u64> {
    if s.len() == 0 {
        None
    } else {
        fold_digits(s)
    }
}

/// Whether `i` is the first occurrence of the character `c` in `s`.
pub open spec fn first_char_at(s: Seq<char>, c: char, i: int) -> bool {
    0 <= i < s.len() && s[i] == c && forall|j: int| 0 <= j < i ==> s[j] != c
}

/// The first index of a character.
pub open spec fn find_char(s: Seq<char>, c: char) -> Option<int> {
    if exists|i: int| first_char_at(s, c, i) {
        Some(choose|i: int| first_char_at(s, c, i))
    } else {
        None
    }
}

/// First occurrences are unique, so a witnessed one is the answer.
pub proof fn lemma_find_char_is(s: Seq<char>, c: char, i: int)
    requires
        first_char_at(s, c, i),
    ensures
        find_char(s, c) == Some(i),
{
    let k = choose|i: int| first_char_at(s, c, i);
    if k < i {
        assert(s[k] == c);
        assert(false);
    } else if i < k {
        assert(s[i] == c);
        assert(false);
    }
}

/// The value of a fraction's first (up to) three digits, scaled to
/// thousandths.
pub open spec fn frac_milli(s: Seq<char>) -> Option<u64> {
    let kept = if s.len() <= 3 {
        s
    } else {
        s.subrange(0, 3)
    };
    match fold_digits(kept) {
        None => None,
        Some(v) => {
            if s.len() >= 3 {
                Some(v)
            } else if s.len() == 2 {
                Some((v * 10) as u64)
            } else if s.len() == 1 {
                Some((v * 100) as u64)
            } else {
                Some(0u64)
            }
        },
    }
}

/// A decimal number `whole[.frac]` in thousandths, truncated beyond the
/// third fractional digit; `None` unless the text is plain digits with
/// at most one point and the value fits. A missing whole or fractional
/// part is zero, but at least one of the two must be present; later
/// digits of the fraction must still be digits.
pub open spec fn parse_milli_spec(s: Seq<char>) -> Option<u64> {
    match find_char(s, '.') {
        None => {
            match parse_u64_spec(s) {
                None => None,
                Some(w) => {
                    if w as int * 1000 > u64::MAX {
                        None
                    } else {
                        Some((w * 1000) as u64)
                    }
                },
            }
        },
        Some(i) => {
            let whole = s.subrange(0, i);
            let frac = s.subrange(i + 1, s.len() as int);
            if whole.len() == 0 && frac.len() == 0 {
                None
            } else {
                match (fold_digits(whole), fold_digits(frac), frac_milli(frac)) {
                    (Some(w), Some(_), Some(f)) => {
                        if w as int * 1000 + f > u64::MAX {
                            None
                        } else {
                            Some((w * 1000 + f) as u64)
                        }
                    },
                    _ => None,
                }
            }
        },
    }
}

/// The speed token with every trailing `x` removed.
pub open spec fn strip_x(s: Seq<char>) -> Seq<char>
    decreases s.len(),
{
    if s.len() > 0 && s.last() == 'x' {
        strip_x(s.drop_last())
    } else {
        s
    }
}

/// An `HH:MM:SS.frac` clock text as microseconds: hours and minutes are
/// plain digit strings, seconds a decimal with up to six fractional
/// digits kept. `None` if any part is malformed, there are not exactly
/// three parts, or the value exceeds the 64-bit microsecond range.
pub open spec fn parse_time_spec(s: Seq<char>) -> Option<i64> {
    match find_char(s, ':') {
        None => None,
        Some(i) => {
            let hours = s.subrange(0, i);
            let rest = s.subrange(i + 1, s.len() as int);
            match find_char(rest, ':') {
                None => None,
                Some(j) => {
                    let mins = rest.subrange(0, j);
                    let secs = rest.subrange(j + 1, rest.len() as int);
                    match (parse_u64_spec(hours), parse_u64_spec(mins), parse_sec_us(secs)) {
                        (Some(h), Some(m), Some(su)) => {
                            let total = (h as int * 3600 + m as int * 60) * 1000000 + su;
                            if total > i64::MAX {
                                None
                            } else {
                                Some(total as i64)
                            }
                        },
                        _ => None,
                    }
                },
            }
        },
    }
}

/// A decimal seconds text as non-negative microseconds, fractional
/// digits beyond the sixth truncated; `None` when malformed. There must
/// be no further colon in it.
pub open spec fn parse_sec_us(s: Seq<char>) -> Option<int> {
    if find_char(s, ':') is Some {
        None
    } else {
        match find_char(s, '.') {
            None => {
                match parse_u64_spec(s) {
                    None => None,
                    Some(w) => {
                        if w as int * 1000000 > u64::MAX {
                            None
                        } else {
                            Some(w as int * 1000000)
                        }
                    },
                }
            },
            Some(i) => {
                let whole = s.subrange(0, i);
                let frac = s.subrange(i + 1, s.len() as int);
                if whole.len() == 0 && frac.len() == 0 {
                    None
                } else {
                    match (fold_digits(whole), fold_digits(frac), frac_micro(frac)) {
                        (Some(w), Some(_), Some(f)) => {
                            if w as int * 1000000 + f > u64::MAX {
                                None
                            } else {
                                Some(w as int * 1000000 + f)
                            }
                        },
                        _ => None,
                    }
                }
            },
        }
    }
}

/// The value of a fraction's first (up to) six digits, scaled to
/// millionths.
pub open spec fn frac_micro(s: Seq<char>) -> Option<int> {
    let kept = if s.len() <= 6 {
        s
    } else {
        s.subrange(0, 6)
    };
    match fold_digits(kept) {
        None => None,
        Some(v) => {
            let k = if s.len() <= 6 {
                s.len() as int
            } else {
                6
            };
            Some(v as int * crate::strfmt::ten_pow((6 - k) as nat))
        },
    }
}

// ---------------------------------------------------------------------------
// Spec layer: whole progress lines
// ---------------------------------------------------------------------------

/// What a progress line parses to. A line without `time=` is not a
/// progress line; otherwise every malformed or absent field falls back
/// to zero, the percentage is the parsed time over `total_us` capped at
/// one hundred percent (zero when the total is not positive), and the
/// remaining time is estimated from the parsed speed when positive,
/// saturating on overflow.
pub open spec fn parse_progress_spec(line: Seq<char>, total_us: int) -> Option<ProgressV> {
    if find_sub(line, "time="@) is None {
        None
    } else {
        let frame = or_zero(opt_parse_u64(extract_value_spec(line, "frame="@)));
        let fps_milli = or_zero(opt_parse_milli(extract_value_spec(line, "fps="@)));
        let speed = match extract_value_spec(line, "speed="@) {
            Some(v) => v,
            None => Seq::empty(),
        };
        let time_us = match extract_value_spec(line, "time="@) {
            Some(v) => match parse_time_spec(v) {
                Some(t) => t as int,
                None => 0,
            },
            None => 0,
        };
        let percent_milli = spec_percent_milli(time_us, total_us);
        let speed_milli = or_zero(opt_parse_milli(Some(strip_x(speed))));
        let eta_us = spec_eta_us(time_us, total_us, speed_milli as int);
        Some(ProgressV { percent_milli, frame, fps_milli, speed, eta_us })
    }
}

/// A parse result, or zero for a missing or malformed field.
pub open spec fn or_zero(v: Option<u64>) -> u64 {
    match v {
        Some(x) => x,
        None => 0u64,
    }
}

/// Parse applied under `Option`.
pub open spec fn opt_parse_u64(v: Option<Seq<char>>) -> Option<u64> {
    match v {
        Some(s) => parse_u64_spec(s),
        None => None,
    }
}

/// Decimal-to-thousandths parse applied under `Option`.
pub open spec fn opt_parse_milli(v: Option<Seq<char>>) -> Option<u64> {
    match v {
        Some(s) => parse_milli_spec(s),
        None => None,
    }
}

/// Elapsed time over the total in thousandths of a percent, capped at
/// one hundred percent; zero when the total is not positive.
pub open spec fn spec_percent_milli(time_us: int, total_us: int) -> u64 {
    if total_us > 0 {
        let p = time_us * 100000 / total_us;
        if p > 100000 {
            100000u64
        } else if p < 0 {
            0u64
        } else {
            p as u64
        }
    } else {
        0u64
    }
}

/// Estimated remaining microseconds: remaining content time divided by
/// the speed factor, when the speed is positive and content remains;
/// saturates at the 64-bit maximum.
pub open spec fn spec_eta_us(time_us: int, total_us: int, speed_milli: int) -> Option<i64> {
    if speed_milli > 0 && total_us > time_us {
        let eta = (total_us - time_us) * 1000 / speed_milli;
        if eta > i64::MAX {
            Some(i64::MAX)
        } else {
            Some(eta as i64)
        }
    } else {
        None
    }
}

// ---------------------------------------------------------------------------
// Characterization lemmas for the scanning specs
// ---------------------------------------------------------------------------

/// Skipping `a` leading spaces leaves the suffix from `a`.
proof fn lemma_skip_spaces(s: Seq<char>, a: int)
    requires
        0 <= a <= s.len(),
        forall|j: int| 0 <= j < a ==> is_space(s[j]),
        a == s.len() || !is_space(s[a]),
    ensures
        skip_spaces(s) == s.subrange(a, s.len() as int),
    decreases a,
{
    if a == 0 {
        assert(s.subrange(0, s.len() as int) =~= s);
    } else {
        let t = s.drop_first();
        assert forall|j: int| 0 <= j < a - 1 implies is_space(t[j]) by {
            assert(t[j] == s[j + 1]);
        }
        lemma_skip_spaces(t, a - 1);
        assert(t.subrange(a - 1, t.len() as int) =~= s.subrange(a, s.len() as int));
    }
}

/// Dropping `len - b` trailing spaces leaves the prefix up to `b`.
proof fn lemma_skip_spaces_end(s: Seq<char>, b: int)
    requires
        0 <= b <= s.len(),
        forall|j: int| b <= j < s.len() ==> is_space(s[j]),
        b == 0 || !is_space(s[b - 1]),
    ensures
        skip_spaces_end(s) == s.subrange(0, b),
    decreases s.len() - b,
{
    if b == s.len() {
        assert(s.subrange(0, s.len() as int) =~= s);
    } else {
        let t = s.drop_last();
        lemma_skip_spaces_end(t, b);
        assert(t.subrange(0, b) =~= s.subrange(0, b));
    }
}

/// A token that runs to index `k` is the prefix up to `k`.
proof fn lemma_take_token(s: Seq<char>, k: int)
    requires
        0 <= k <= s.len(),
        forall|j: int| 0 <= j < k ==> !is_space(s[j]),
        k == s.len() || is_space(s[k]),
    ensures
        take_token(s) == s.subrange(0, k),
    decreases k,
{
    if k == 0 {
        assert(s.subrange(0, 0) =~= Seq::<char>::empty());
    } else {
        let t = s.drop_first();
        assert forall|j: int| 0 <= j < k - 1 implies !is_space(t[j]) by {
            assert(t[j] == s[j + 1]);
        }
        lemma_take_token(t, k - 1);
        assert(seq![s[0]] + t.subrange(0, k - 1) =~= s.subrange(0, k));
    }
}

/// Trailing-`x` stripping down to index `k` keeps the prefix up to `k`.
proof fn lemma_strip_x(s: Seq<char>, k: int)
    requires
        0 <= k <= s.len(),
        forall|j: int| k <= j < s.len() ==> s[j] == 'x',
        k == 0 || s[k - 1] != 'x',
    ensures
        strip_x(s) == s.subrange(0, k),
    decreases s.len() - k,
{
    if k == s.len() {
        assert(s.subrange(0, s.len() as int) =~= s);
    } else {
        let t = s.drop_last();
        lemma_strip_x(t, k);
        assert(t.subrange(0, k) =~= s.subrange(0, k));
    }
}

// ---------------------------------------------------------------------------
// Exec layer
// ---------------------------------------------------------------------------

/// The first character index where `key` occurs in `s`.
fn find_key(s: &str, key: &str) -> (r: Option<usize>)
    ensures
        match r {
            Some(i) => find_sub(s@, key@) == Some(i as int) && i + key@.len() <= s@.len(),
            None => find_sub(s@, key@) is None,
        },
{
    let n = s.unicode_len();
    let m = key.unicode_len();
    if m == 0 {
        proof {
            assert(first_key_at(s@, key@, 0));
            lemma_find_sub_is(s@, key@, 0);
        }
        return Some(0);
    }
    if m > n {
        proof {
            assert forall|i: int| !first_key_at(s@, key@, i) by {}
        }
        return None;
    }
    let mut i: usize = 0;
    while i <= n - m
        invariant
            n == s@.len(),
            m == key@.len(),
            1 <= m <= n,
            0 <= i <= n - m + 1,
            forall|j: int| 0 <= j < i ==> !has_key_at(s@, key@, j),
        decreases n - m - i + 1,
    {
        let mut j: usize = 0;
        let mut matched = true;
        while j < m
            invariant
                n == s@.len(),
                m == key@.len(),
                0 <= i <= n - m,
                0 <= j <= m,
                matched ==> forall|x: int| 0 <= x < j ==> s@[i + x] == key@[x],
                !matched ==> !has_key_at(s@, key@, i as int),
            decreases m - j,
        {
            if s.get_char(i + j) != key.get_char(j) {
                matched = false;
                j = m;
            } else {
                j += 1;
            }
        }
        if matched {
            proof {
                assert(has_key_at(s@, key@, i as int));
                assert(first_key_at(s@, key@, i as int));
                lemma_find_sub_is(s@, key@, i as int);
            }
            return Some(i);
        }
        i += 1;
    }
    proof {
        assert forall|i2: int| !first_key_at(s@, key@, i2) by {
            if has_key_at(s@, key@, i2) {
                assert(0 <= i2 <= n - m);
                assert(!has_key_at(s@, key@, i2));
            }
        }
    }
    None
}

/// Extract the value following `key` in an engine status line.
pub fn extract_value(line: &str, key: &str) -> (r: Option<String>)
    ensures
        match r {
            Some(v) => extract_value_spec(line@, key@) == Some(v@),
            None => extract_value_spec(line@, key@) is None,
        },
{
    let n = line.unicode_len();
    let i = match find_key(line, key) {
        Some(i) => i,
        None => {
            return None;
        },
    };
    let m = key.unicode_len();
    let start0 = i + m;
    let ghost rest = line@.subrange(start0 as int, n as int);
    let mut a: usize = start0;
    while a < n && is_space_char(line.get_char(a))
        invariant
            n == line@.len(),
            start0 <= a <= n,
            rest == line@.subrange(start0 as int, n as int),
            forall|j: int| start0 <= j < a ==> is_space(line@[j]),
        decreases n - a,
    {
        a += 1;
    }
    let mut b: usize = a;
    while b < n && !is_space_char(line.get_char(b))
        invariant
            n == line@.len(),
            a <= b <= n,
            forall|j: int| a <= j < b ==> !is_space(line@[j]),
        decreases n - b,
    {
        b += 1;
    }
    proof {
        assert forall|j: int| 0 <= j < a - start0 implies is_space(rest[j]) by {
            assert(rest[j] == line@[start0 + j]);
        }
        if (a as int) - (start0 as int) < rest.len() {
            assert(rest[a - start0] == line@[a as int]);
        }
        lemma_skip_spaces(rest, a - start0);
        let after = rest.subrange(a - start0, rest.len() as int);
        assert forall|j: int| 0 <= j < b - a implies !is_space(after[j]) by {
            assert(after[j] == line@[a + j]);
        }
        if (b as int) - (a as int) < after.len() {
            assert(after[b - a] == line@[b as int]);
        }
        lemma_take_token(after, b - a);
        assert(after.subrange(0, b - a) =~= line@.subrange(a as int, b as int));
    }
    if a == b {
        return None;
    }
    let tok = line.substring_char(a, b);
    Some(String::from_str(tok))
}

/// ASCII whitespace test.
fn is_space_char(c: char) -> (r: bool)
    ensures
        r == is_space(c),
{
    c == ' ' || c == '\t' || c == '\n' || c == '\r'
}

/// Fold a digit string per `fold_digits`.
fn fold_digits_exec(s: &str) -> (r: Option<u64>)
    ensures
        r == fold_digits(s@),
{
    let n = s.unicode_len();
    let mut acc: Option<u64> = Some(0);
    let mut i: usize = 0;
    while i < n
        invariant
            n == s@.len(),
            0 <= i <= n,
            acc == fold_digits(s@.subrange(0, i as int)),
        decreases n - i,
    {
        let ghost prefix = s@.subrange(0, i as int);
        let c = s.get_char(i);
        let d = c as u32;
        acc = match acc {
            None => None,
            Some(a) => {
                if d < 48 || d > 57 {
                    None
                } else {
                    let next: u128 = (a as u128) * 10 + ((d - 48) as u128);
                    if next > 0xFFFF_FFFF_FFFF_FFFFu128 {
                        None
                    } else {
                        Some(next as u64)
                    }
                }
            },
        };
        proof {
            let prefix2 = s@.subrange(0, i + 1);
            assert(prefix2.drop_last() =~= prefix);
            assert(prefix2.last() == c);
        }
        i += 1;
    }
    proof {
        assert(s@.subrange(0, n as int) =~= s@);
    }
    acc
}

/// Parse a non-empty plain digit string.
pub fn parse_u64(s: &str) -> (r: Option<u64>)
    ensures
        r == parse_u64_spec(s@),
{
    if s.unicode_len() == 0 {
        None
    } else {
        fold_digits_exec(s)
    }
}

/// The first index of `c` in `s`.
fn find_char_exec(s: &str, c: char) -> (r: Option<usize>)
    ensures
        match r {
            Some(i) => find_char(s@, c) == Some(i as int) && i < s@.len() && s@[i as int] == c,
            None => find_char(s@, c) is None,
        },
{
    let n = s.unicode_len();
    let mut i: usize = 0;
    while i < n
        invariant
            n == s@.len(),
            0 <= i <= n,
            forall|j: int| 0 <= j < i ==> s@[j] != c,
        decreases n - i,
    {
        if s.get_char(i) == c {
            proof {
                assert(first_char_at(s@, c, i as int));
                lemma_find_char_is(s@, c, i as int);
            }
            return Some(i);
        }
        i += 1;
    }
    proof {
        assert forall|i2: int| !first_char_at(s@, c, i2) by {}
    }
    None
}

/// The value of a fraction's first (up to) three digits in thousandths.
fn frac_milli_exec(s: &str) -> (r: Option<u64>)
    ensures
        r == frac_milli(s@),
{
    let n = s.unicode_len();
    let keep = if n <= 3 {
        n
    } else {
        3
    };
    let kept = s.substring_char(0, keep);
    proof {
        if n <= 3 {
            assert(kept@ =~= s@);
        }
    }
    match fold_digits_exec(kept) {
        None => None,
        Some(v) => {
            proof {
                lemma_fold_digits_bound(kept@);
                assert(crate::strfmt::ten_pow(1nat) == 10 && crate::strfmt::ten_pow(2nat) == 100
                    && crate::strfmt::ten_pow(3nat) == 1000) by {
                    reveal_with_fuel(crate::strfmt::ten_pow, 5);
                }
            }
            if n >= 3 {
                Some(v)
            } else if n == 2 {
                Some(v * 10)
            } else if n == 1 {
                Some(v * 100)
            } else {
                Some(0)
            }
        },
    }
}

/// A folded digit string is bounded by ten to its length.
proof fn lemma_fold_digits_bound(s: Seq<char>)
    ensures
        fold_digits(s) matches Some(v) ==> v < crate::strfmt::ten_pow(s.len() as nat),
    decreases s.len(),
{
    if s.len() > 0 {
        lemma_fold_digits_bound(s.drop_last());
        if fold_digits(s) is Some {
            let prev = fold_digits(s.drop_last()).unwrap();
            assert(prev < crate::strfmt::ten_pow((s.len() - 1) as nat));
            assert(crate::strfmt::ten_pow(s.len() as nat) == 10 * crate::strfmt::ten_pow(
                (s.len() - 1) as nat,
            ));
        }
    } else {
        assert(crate::strfmt::ten_pow(0nat) == 1);
    }
}

/// Parse a decimal number into thousandths.
pub fn parse_milli(s: &str) -> (r: Option<u64>)
    ensures
        r == parse_milli_spec(s@),
{
    let n = s.unicode_len();
    match find_char_exec(s, '.') {
        None => {
            match parse_u64(s) {
                None => None,
                Some(w) => {
                    if w > 0xFFFF_FFFF_FFFF_FFFFu64 / 1000 {
                        proof {
                            assert(w as int * 1000 > u64::MAX) by (nonlinear_arith)
                                requires
                                    w > 0xFFFF_FFFF_FFFF_FFFFu64 / 1000,
                            {}
                        }
                        None
                    } else {
                        proof {
                            assert(w as int * 1000 <= u64::MAX) by (nonlinear_arith)
                                requires
                                    w <= 0xFFFF_FFFF_FFFF_FFFFu64 / 1000,
                            {}
                        }
                        Some(w * 1000)
                    }
                },
            }
        },
        Some(i) => {
            let whole = s.substring_char(0, i);
            let frac = s.substring_char(i + 1, n);
            if whole.unicode_len() == 0 && frac.unicode_len() == 0 {
                return None;
            }
            let w = match fold_digits_exec(whole) {
                Some(w) => w,
                None => {
                    return None;
                },
            };
            match fold_digits_exec(frac) {
                Some(_) => {},
                None => {
                    return None;
                },
            }
            let f = match frac_milli_exec(frac) {
                Some(f) => f,
                None => {
                    return None;
                },
            };
            if w > (0xFFFF_FFFF_FFFF_FFFFu64 - f) / 1000 {
                proof {
                    assert(w as int * 1000 + f > u64::MAX) by (nonlinear_arith)
                        requires
                            w > ((0xFFFF_FFFF_FFFF_FFFFu64 - f) as u64) / 1000,
                            f <= 0xFFFF_FFFF_FFFF_FFFFu64,
                    {}
                }
                None
            } else {
                proof {
                    assert(w as int * 1000 + f <= u64::MAX) by (nonlinear_arith)
                        requires
                            w <= ((0xFFFF_FFFF_FFFF_FFFFu64 - f) as u64) / 1000,
                            f <= 0xFFFF_FFFF_FFFF_FFFFu64,
                    {}
                }
                Some(w * 1000 + f)
            }
        },
    }
}

/// Parse a decimal seconds text (no colon) into non-negative
/// microseconds, fractional digits beyond the sixth truncated.
fn parse_sec_us_exec(s: &str) -> (r: Option<u64>)
    ensures
        match r {
            Some(v) => parse_sec_us(s@) == Some(v as int),
            None => parse_sec_us(s@) is None,
        },
{
    let n = s.unicode_len();
    match find_char_exec(s, ':') {
        Some(_) => {
            return None;
        },
        None => {},
    }
    match find_char_exec(s, '.') {
        None => {
            match parse_u64(s) {
                None => None,
                Some(w) => {
                    if w > 0xFFFF_FFFF_FFFF_FFFFu64 / 1000000 {
                        proof {
                            assert(w as int * 1000000 > u64::MAX) by (nonlinear_arith)
                                requires
                                    w > 0xFFFF_FFFF_FFFF_FFFFu64 / 1000000,
                            {}
                        }
                        None
                    } else {
                        proof {
                            assert(w as int * 1000000 <= u64::MAX) by (nonlinear_arith)
                                requires
                                    w <= 0xFFFF_FFFF_FFFF_FFFFu64 / 1000000,
                            {}
                        }
                        Some(w * 1000000)
                    }
                },
            }
        },
        Some(i) => {
            let whole = s.substring_char(0, i);
            let frac = s.substring_char(i + 1, n);
            if whole.unicode_len() == 0 && frac.unicode_len() == 0 {
                return None;
            }
            let w = match fold_digits_exec(whole) {
                Some(w) => w,
                None => {
                    return None;
                },
            };
            match fold_digits_exec(frac) {
                Some(_) => {},
                None => {
                    return None;
                },
            }
            let f = frac_micro_exec(frac);
            if w > (0xFFFF_FFFF_FFFF_FFFFu64 - f) / 1000000 {
                proof {
                    assert(w as int * 1000000 + f > u64::MAX) by (nonlinear_arith)
                        requires
                            w > ((0xFFFF_FFFF_FFFF_FFFFu64 - f) as u64) / 1000000,
                            f <= 0xFFFF_FFFF_FFFF_FFFFu64,
                    {}
                }
                None
            } else {
                proof {
                    assert(w as int * 1000000 + f <= u64::MAX) by (nonlinear_arith)
                        requires
                            w <= ((0xFFFF_FFFF_FFFF_FFFFu64 - f) as u64) / 1000000,
                            f <= 0xFFFF_FFFF_FFFF_FFFFu64,
                    {}
                }
                Some(w * 1000000 + f)
            }
        },
    }
}

/// The value of a fraction's first (up to) six digits in millionths,
/// assuming the digits fold.
fn frac_micro_exec(s: &str) -> (r: u64)
    requires
        fold_digits(s@) is Some,
    ensures
        frac_micro(s@) == Some(r as int),
        r < 1000000,
{
    let n = s.unicode_len();
    let keep = if n <= 6 {
        n
    } else {
        6
    };
    let kept = s.substring_char(0, keep);
    proof {
        if n <= 6 {
            assert(kept@ =~= s@);
        }
        lemma_fold_digits_prefix(s@, keep as int);
    }
    let v = match fold_digits_exec(kept) {
        Some(v) => v,
        None => {
            proof {
                assert(false);
            }
            0
        },
    };
    proof {
        lemma_fold_digits_bound(kept@);
        assert(crate::strfmt::ten_pow(0nat) == 1 && crate::strfmt::ten_pow(1nat) == 10
            && crate::strfmt::ten_pow(2nat) == 100 && crate::strfmt::ten_pow(3nat) == 1000
            && crate::strfmt::ten_pow(4nat) == 10000 && crate::strfmt::ten_pow(5nat) == 100000
            && crate::strfmt::ten_pow(6nat) == 1000000) by {
            reveal_with_fuel(crate::strfmt::ten_pow, 8);
        }
    }
    if n >= 6 {
        v
    } else if n == 5 {
        v * 10
    } else if n == 4 {
        v * 100
    } else if n == 3 {
        v * 1000
    } else if n == 2 {
        v * 10000
    } else if n == 1 {
        v * 100000
    } else {
        0
    }
}

/// A prefix of a foldable digit string folds too.
proof fn lemma_fold_digits_prefix(s: Seq<char>, k: int)
    requires
        0 <= k <= s.len(),
        fold_digits(s) is Some,
    ensures
        fold_digits(s.subrange(0, k)) is Some,
    decreases s.len() - k,
{
    if k < s.len() {
        assert(s.subrange(0, s.len() as int) =~= s);
        assert(s.subrange(0, k + 1).drop_last() =~= s.subrange(0, k));
        lemma_fold_digits_prefix(s, k + 1);
        assert(fold_digits(s.subrange(0, k + 1)) is Some);
    } else {
        assert(s.subrange(0, k) =~= s);
    }
}

/// Ten to any power is positive.
proof fn lemma_ten_pow_pos(w: nat)
    ensures
        crate::strfmt::ten_pow(w) > 0,
    decreases w,
{
    if w > 0 {
        lemma_ten_pow_pos((w - 1) as nat);
    }
}

/// A parsed clock value is a non-negative microsecond count.
proof fn lemma_parse_time_nonneg(s: Seq<char>)
    ensures
        parse_time_spec(s) matches Some(t) ==> t >= 0,
{
    if parse_time_spec(s) is Some {
        let i = find_char(s, ':').unwrap();
        let rest = s.subrange(i + 1, s.len() as int);
        let j = find_char(rest, ':').unwrap();
        let secs = rest.subrange(j + 1, rest.len() as int);
        lemma_parse_sec_nonneg(secs);
    }
}

/// A parsed seconds value is non-negative.
proof fn lemma_parse_sec_nonneg(s: Seq<char>)
    ensures
        parse_sec_us(s) matches Some(v) ==> v >= 0,
{
    if parse_sec_us(s) is Some {
        match find_char(s, '.') {
            None => {},
            Some(i) => {
                let frac = s.subrange(i + 1, s.len() as int);
                let kept = if frac.len() <= 6 {
                    frac
                } else {
                    frac.subrange(0, 6)
                };
                if fold_digits(kept) is Some {
                    let v = fold_digits(kept).unwrap();
                    let k = if frac.len() <= 6 {
                        frac.len() as int
                    } else {
                        6
                    };
                    lemma_ten_pow_pos((6 - k) as nat);
                    assert(v as int * crate::strfmt::ten_pow((6 - k) as nat) >= 0)
                        by (nonlinear_arith)
                        requires
                            v >= 0,
                            crate::strfmt::ten_pow((6 - k) as nat) > 0,
                    {}
                }
            },
        }
    }
}

/// Parse an `HH:MM:SS.frac` clock text into microseconds.
pub fn parse_time_str(s: &str) -> (r: Option<i64>)
    ensures
        r == parse_time_spec(s@),
{
    let n = s.unicode_len();
    let i = match find_char_exec(s, ':') {
        Some(i) => i,
        None => {
            return None;
        },
    };
    let hours = s.substring_char(0, i);
    let rest = s.substring_char(i + 1, n);
    let rn = rest.unicode_len();
    let j = match find_char_exec(rest, ':') {
        Some(j) => j,
        None => {
            return None;
        },
    };
    let mins = rest.substring_char(0, j);
    let secs = rest.substring_char(j + 1, rn);
    let h = match parse_u64(hours) {
        Some(h) => h,
        None => {
            return None;
        },
    };
    let m = match parse_u64(mins) {
        Some(m) => m,
        None => {
            return None;
        },
    };
    let su = match parse_sec_us_exec(secs) {
        Some(su) => su,
        None => {
            return None;
        },
    };
    let total: u128 = ((h as u128) * 3600 + (m as u128) * 60) * 1000000 + su as u128;
    if total > 0x7FFF_FFFF_FFFF_FFFFu128 {
        None
    } else {
        Some(total as i64)
    }
}

/// The speed token with every trailing `x` removed.
fn strip_x_exec(s: &str) -> (r: &str)
    ensures
        r@ == strip_x(s@),
{
    let n = s.unicode_len();
    let mut k: usize = n;
    while k > 0 && s.get_char(k - 1) == 'x'
        invariant
            n == s@.len(),
            0 <= k <= n,
            forall|j: int| k <= j < n ==> s@[j] == 'x',
        decreases k,
    {
        k -= 1;
    }
    proof {
        lemma_strip_x(s@, k as int);
    }
    s.substring_char(0, k)
}

/// Parse one status line against a total duration in microseconds.
/// Returns `None` for any line that does not carry a `time=` field.
pub fn parse_progress(line: &str, total_us: i64) -> (r: Option<RenderProgress>)
    ensures
        match r {
            Some(p) => parse_progress_spec(line@, total_us as int) == Some(p@),
            None => parse_progress_spec(line@, total_us as int) is None,
        },
{
    proof {
        reveal_strlit("time=");
        reveal_strlit("frame=");
        reveal_strlit("fps=");
        reveal_strlit("speed=");
        reveal_strlit("");
    }
    match find_key(line, "time=") {
        Some(_) => {},
        None => {
            return None;
        },
    }
    let frame = match extract_value(line, "frame=") {
        Some(v) => {
            match parse_u64(v.as_str()) {
                Some(x) => x,
                None => 0,
            }
        },
        None => 0,
    };
    let fps_milli = match extract_value(line, "fps=") {
        Some(v) => {
            match parse_milli(v.as_str()) {
                Some(x) => x,
                None => 0,
            }
        },
        None => 0,
    };
    let speed = match extract_value(line, "speed=") {
        Some(v) => v,
        None => String::new(),
    };
    let time_us: i64 = match extract_value(line, "time=") {
        Some(v) => {
            proof {
                lemma_parse_time_nonneg(v@);
            }
            match parse_time_str(v.as_str()) {
                Some(t) => t,
                None => 0,
            }
        },
        None => 0,
    };
    proof {
        assert(time_us >= 0);
    }
    let percent_milli: u64 = if total_us > 0 && time_us > 0 {
        let p: u128 = (time_us as u128) * 100000 / (total_us as u128);
        if p > 100000 {
            100000
        } else {
            p as u64
        }
    } else {
        0
    };
    let speed_milli = match parse_milli(strip_x_exec(speed.as_str())) {
        Some(x) => x,
        None => 0,
    };
    let eta_us: Option<i64> = if speed_milli > 0 && total_us > time_us {
        let remaining: u128 = ((total_us as i128) - (time_us as i128)) as u128;
        let e: u128 = remaining * 1000 / (speed_milli as u128);
        if e > 0x7FFF_FFFF_FFFF_FFFFu128 {
            Some(i64::MAX)
        } else {
            Some(e as i64)
        }
    } else {
        None
    };
    proof {
        assert(spec_percent_milli(time_us as int, total_us as int) == percent_milli);
        assert(spec_eta_us(time_us as int, total_us as int, speed_milli as int) == eta_us);
    }
    Some(RenderProgress { percent_milli, frame, fps_milli, speed, eta_us })
}

// ---------------------------------------------------------------------------
// Chunk splitting
// ---------------------------------------------------------------------------

/// A segment separator: the render engine rewrites its status line in
/// place with carriage returns and ends other output with line feeds.
pub open spec fn is_sep(c: char) -> bool {
    c == '\r' || c == '\n'
}

/// Whether `i` is the first separator in `s`.
pub open spec fn first_sep_at(s: Seq<char>, i: int) -> bool {
    0 <= i < s.len() && is_sep(s[i]) && forall|j: int| 0 <= j < i ==> !is_sep(s[j])
}

/// The first separator index.
pub open spec fn find_sep(s: Seq<char>) -> Option<int> {
    if exists|i: int| first_sep_at(s, i) {
        Some(choose|i: int| first_sep_at(s, i))
    } else {
        None
    }
}

/// The empty or singleton sequence of a parse outcome.
pub open spec fn opt_seq(p: Option<ProgressV>) -> Seq<ProgressV> {
    match p {
        Some(v) => seq![v],
        None => Seq::empty(),
    }
}

/// What a raw diagnostic chunk parses to: split on carriage returns and
/// line feeds, trim each segment, and keep every segment that parses as
/// a progress line, in order.
pub open spec fn parse_chunk_spec(s: Seq<char>, total_us: int) -> Seq<ProgressV>
    decreases s.len(),
{
    match find_sep(s) {
        None => opt_seq(parse_progress_spec(trim_spaces(s), total_us)),
        Some(i) => opt_seq(parse_progress_spec(trim_spaces(s.subrange(0, i)), total_us))
            + parse_chunk_spec(s.subrange(i + 1, s.len() as int), total_us),
    }
}

/// First separators are unique, so a witnessed one is the answer.
proof fn lemma_find_sep_is(s: Seq<char>, i: int)
    requires
        first_sep_at(s, i),
    ensures
        find_sep(s) == Some(i),
{
    let k = choose|i: int| first_sep_at(s, i);
    if k < i {
        assert(is_sep(s[k]));
        assert(false);
    } else if i < k {
        assert(is_sep(s[i]));
        assert(false);
    }
}

/// Trim leading and trailing ASCII whitespace.
fn trim_exec(s: &str) -> (r: &str)
    ensures
        r@ == trim_spaces(s@),
{
    let n = s.unicode_len();
    let mut a: usize = 0;
    while a < n && is_space_char(s.get_char(a))
        invariant
            n == s@.len(),
            0 <= a <= n,
            forall|j: int| 0 <= j < a ==> is_space(s@[j]),
        decreases n - a,
    {
        a += 1;
    }
    let mut b: usize = n;
    while b > a && is_space_char(s.get_char(b - 1))
        invariant
            n == s@.len(),
            a <= b <= n,
            forall|j: int| b <= j < n ==> is_space(s@[j]),
        decreases b,
    {
        b -= 1;
    }
    proof {
        lemma_skip_spaces(s@, a as int);
        let mid = s@.subrange(a as int, n as int);
        assert forall|j: int| b - a <= j < mid.len() implies is_space(mid[j]) by {
            assert(mid[j] == s@[a + j]);
        }
        if b > a {
            assert(mid[b - a - 1] == s@[b - 1]);
        }
        lemma_skip_spaces_end(mid, b - a);
        assert(mid.subrange(0, b - a) =~= s@.subrange(a as int, b as int));
    }
    s.substring_char(a, b)
}

/// The first separator index in a chunk.
fn find_sep_exec(s: &str) -> (r: Option<usize>)
    ensures
        match r {
            Some(i) => find_sep(s@) == Some(i as int) && i < s@.len(),
            None => find_sep(s@) is None,
        },
{
    let n = s.unicode_len();
    let mut i: usize = 0;
    while i < n
        invariant
            n == s@.len(),
            0 <= i <= n,
            forall|j: int| 0 <= j < i ==> !is_sep(s@[j]),
        decreases n - i,
    {
        let c = s.get_char(i);
        if c == '\r' || c == '\n' {
            proof {
                assert(first_sep_at(s@, i as int));
                lemma_find_sep_is(s@, i as int);
            }
            return Some(i);
        }
        i += 1;
    }
    proof {
        assert forall|i2: int| !first_sep_at(s@, i2) by {}
    }
    None
}

/// Split a raw diagnostic chunk on carriage returns and line feeds,
/// trim each segment, and parse every segment that is a progress line.
pub fn parse_progress_chunk(chunk: &str, total_us: i64) -> (r: Vec<RenderProgress>)
    ensures
        r.deep_view() == parse_chunk_spec(chunk@, total_us as int),
    decreases chunk@.len(),
{
    let n = chunk.unicode_len();
    let mut out: Vec<RenderProgress> = Vec::new();
    match find_sep_exec(chunk) {
        None => {
            let seg = trim_exec(chunk);
            match parse_progress(seg, total_us) {
                Some(p) => {
                    out.push(p);
                },
                None => {},
            }
            proof {
                assert(out.deep_view() =~~= parse_chunk_spec(chunk@, total_us as int));
            }
            out
        },
        Some(i) => {
            let seg = trim_exec(chunk.substring_char(0, i));
            match parse_progress(seg, total_us) {
                Some(p) => {
                    out.push(p);
                },
                None => {},
            }
            let mut rest = parse_progress_chunk(chunk.substring_char(i + 1, n), total_us);
            let ghost head = out.deep_view();
            let ghost tail = rest.deep_view();
            out.append(&mut rest);
            proof {
                assert(out.deep_view() =~~= head + tail);
                assert(out.deep_view() =~~= parse_chunk_spec(chunk@, total_us as int));
            }
            out
        },
    }
}

} // verus!

//! Decimal text: integers, fixed-width digit groups, fractional seconds
//! derived from microsecond counts by exact division, and HH:MM:SS.mmm
//! clock text. The render compiler builds its filter graph from these, so
//! each executable function is proved to produce exactly the sequence of
//! characters its specification describes.

use vstd::prelude::*;
use vstd::string::StringExecFns;

verus! {

/// The digit character for a value in 0..10.
pub open spec fn dec_digit(d: int) -> char {
    if d == 0 {
        '0'
    } else if d == 1 {
        '1'
    } else if d == 2 {
        '2'
    } else if d == 3 {
        '3'
    } else if d == 4 {
        '4'
    } else if d == 5 {
        '5'
    } else if d == 6 {
        '6'
    } else if d == 7 {
        '7'
    } else if d == 8 {
        '8'
    } else {
        '9'
    }
}

/// The decimal text of a non-negative integer.
pub open spec fn dec_nat(n: int) -> Seq<char>
    decreases n,
{
    if n < 10 {
        seq![dec_digit(n)]
    } else {
        dec_nat(n / 10).push(dec_digit(n % 10))
    }
}

/// The decimal text of an integer, with a leading minus sign when
/// negative.
pub open spec fn dec_int(n: int) -> Seq<char> {
    if n < 0 {
        seq!['-'] + dec_nat(-n)
    } else {
        dec_nat(n)
    }
}

/// The low `w` digits of a non-negative integer, zero-padded to exactly
/// `w` characters.
pub open spec fn dec_pad(n: int, w: nat) -> Seq<char>
    decreases w,
{
    if w == 0 {
        Seq::empty()
    } else {
        dec_pad(n / 10, (w - 1) as nat).push(dec_digit(n % 10))
    }
}

/// A fraction `r` over `w` decimal places with its trailing zeros
/// stripped: the remaining value and the number of places kept.
pub open spec fn strip_zeros(r: int, w: nat) -> (int, nat)
    decreases w,
{
    if w > 0 && r % 10 == 0 {
        strip_zeros(r / 10, (w - 1) as nat)
    } else {
        (r, w)
    }
}

/// Powers of ten.
pub open spec fn ten_pow(w: nat) -> int
    decreases w,
{
    if w == 0 {
        1
    } else {
        10 * ten_pow((w - 1) as nat)
    }
}

/// The shortest decimal text of `us` microseconds as seconds: the whole
/// part, then a point and the fractional digits only if the fraction is
/// non-zero, trailing zeros trimmed.
pub open spec fn sec_text(us: int) -> Seq<char> {
    let mag = if us < 0 {
        -us
    } else {
        us
    };
    let sign: Seq<char> = if us < 0 {
        seq!['-']
    } else {
        Seq::empty()
    };
    let whole = mag / 1000000;
    let frac = mag % 1000000;
    if frac == 0 {
        sign + dec_nat(whole)
    } else {
        sign + dec_nat(whole) + seq!['.'] + dec_pad(
            strip_zeros(frac, 6).0,
            strip_zeros(frac, 6).1,
        )
    }
}

/// The shortest decimal text of `m` thousandths: the whole part, then a
/// point and the fractional digits only if the fraction is non-zero,
/// trailing zeros trimmed.
pub open spec fn milli_text(m: int) -> Seq<char> {
    let whole = m / 1000;
    let frac = m % 1000;
    if frac == 0 {
        dec_nat(whole)
    } else {
        dec_nat(whole) + seq!['.'] + dec_pad(strip_zeros(frac, 3).0, strip_zeros(frac, 3).1)
    }
}

/// Decimal text zero-padded on the left to at least two characters.
pub open spec fn pad2(n: int) -> Seq<char> {
    if n < 10 {
        seq!['0'] + dec_nat(n)
    } else {
        dec_nat(n)
    }
}

/// The HH:MM:SS.mmm clock text of `us` microseconds, with a leading
/// minus sign when negative.
pub open spec fn hms_text(us: int) -> Seq<char> {
    let mag = if us < 0 {
        -us
    } else {
        us
    };
    let sign: Seq<char> = if us < 0 {
        seq!['-']
    } else {
        Seq::empty()
    };
    let total_ms = mag / 1000;
    let ms = total_ms % 1000;
    let total_secs = total_ms / 1000;
    let secs = total_secs % 60;
    let total_mins = total_secs / 60;
    let mins = total_mins % 60;
    let hours = total_mins / 60;
    sign + pad2(hours) + seq![':'] + pad2(mins) + seq![':'] + pad2(secs) + seq!['.'] + dec_pad(
        ms,
        3,
    )
}

/// The one-character string for a digit value.
fn digit_str(d: u64) -> (r: &'static str)
    requires
        d < 10,
    ensures
        r@ == seq![dec_digit(d as int)],
{
    proof {
        reveal_strlit("0");
        reveal_strlit("1");
        reveal_strlit("2");
        reveal_strlit("3");
        reveal_strlit("4");
        reveal_strlit("5");
        reveal_strlit("6");
        reveal_strlit("7");
        reveal_strlit("8");
        reveal_strlit("9");
    }
    let r = if d == 0 {
        "0"
    } else if d == 1 {
        "1"
    } else if d == 2 {
        "2"
    } else if d == 3 {
        "3"
    } else if d == 4 {
        "4"
    } else if d == 5 {
        "5"
    } else if d == 6 {
        "6"
    } else if d == 7 {
        "7"
    } else if d == 8 {
        "8"
    } else {
        "9"
    };
    proof {
        assert(r@ =~= seq![dec_digit(d as int)]);
    }
    r
}

/// The decimal text of an unsigned 128-bit value.
pub fn u128_string(n: u128) -> (r: String)
    ensures
        r@ == dec_nat(n as int),
    decreases n,
{
    if n < 10 {
        String::from_str(digit_str(n as u64))
    } else {
        let mut s = u128_string(n / 10);
        s.append(digit_str((n % 10) as u64));
        proof {
            assert(s@ =~= dec_nat(n as int));
        }
        s
    }
}

/// The decimal text of an unsigned value.
pub fn u64_string(n: u64) -> (r: String)
    ensures
        r@ == dec_nat(n as int),
    decreases n,
{
    if n < 10 {
        String::from_str(digit_str(n))
    } else {
        let mut s = u64_string(n / 10);
        s.append(digit_str(n % 10));
        proof {
            assert(s@ =~= dec_nat(n as int));
        }
        s
    }
}

/// Append the decimal text of an unsigned value.
pub fn push_u64(out: &mut String, n: u64)
    ensures
        final(out)@ == old(out)@ + dec_nat(n as int),
{
    let s = u64_string(n);
    out.append(s.as_str());
}

/// Append the decimal text of a signed value.
pub fn push_i64(out: &mut String, n: i64)
    ensures
        final(out)@ == old(out)@ + dec_int(n as int),
{
    if n < 0 {
        proof {
            reveal_strlit("-");
        }
        out.append("-");
        let mag: u64 = (-(n as i128)) as u64;
        push_u64(out, mag);
        proof {
            assert(out@ =~= old(out)@ + dec_int(n as int));
        }
    } else {
        push_u64(out, n as u64);
    }
}

/// The low `w` digits of `n`, zero-padded to exactly `w` characters.
fn pad_string(n: u64, w: u64) -> (r: String)
    ensures
        r@ == dec_pad(n as int, w as nat),
    decreases w,
{
    if w == 0 {
        String::new()
    } else {
        let mut s = pad_string(n / 10, w - 1);
        s.append(digit_str(n % 10));
        proof {
            assert(s@ =~= dec_pad(n as int, w as nat));
        }
        s
    }
}

/// Strip the trailing zeros of a non-zero fraction over `w6` decimal
/// places, returning the kept value and width.
fn strip_frac(frac: u64, w6: u64) -> (r: (u64, u64))
    requires
        0 < frac,
        0 < w6 <= 6,
        frac < ten_pow(w6 as nat),
    ensures
        (r.0 as int, r.1 as nat) == strip_zeros(frac as int, w6 as nat),
        r.0 % 10 != 0,
        0 < r.1 <= w6,
{
    let mut f = frac;
    let mut w: u64 = w6;
    while f % 10 == 0
        invariant
            0 < f,
            0 < w <= w6 <= 6,
            f < ten_pow(w as nat),
            strip_zeros(frac as int, w6 as nat) == strip_zeros(f as int, w as nat),
        decreases w,
    {
        proof {
            assert(f >= 10);
            if w == 1 {
                assert(ten_pow(1nat) == 10) by {
                    reveal_with_fuel(ten_pow, 3);
                }
                assert(false);
            }
            assert(ten_pow(w as nat) == 10 * ten_pow((w - 1) as nat));
            assert(f as int == 10 * (f as int / 10));
            assert(f as int / 10 < ten_pow((w - 1) as nat)) by (nonlinear_arith)
                requires
                    f as int == 10 * (f as int / 10),
                    (f as int) < 10 * ten_pow((w - 1) as nat),
            {}
        }
        f = f / 10;
        w = w - 1;
    }
    (f, w)
}

/// Append the seconds text of a microsecond count; the count is taken as
/// a 128-bit value so that derived quantities (ends, sums) need not fit
/// in 64 bits.
pub fn push_sec(out: &mut String, us: i128)
    requires
        us > i128::MIN,
    ensures
        final(out)@ == old(out)@ + sec_text(us as int),
{
    let neg = us < 0;
    let mag: u128 = if neg {
        (-us) as u128
    } else {
        us as u128
    };
    if neg {
        proof {
            reveal_strlit("-");
        }
        out.append("-");
    }
    let whole = mag / 1000000;
    let frac = (mag % 1000000) as u64;
    let ws = u128_string(whole);
    out.append(ws.as_str());
    if frac != 0 {
        proof {
            reveal_strlit(".");
            assert(ten_pow(6nat) == 1000000) by {
                reveal_with_fuel(ten_pow, 8);
            }
        }
        out.append(".");
        let (f, w) = strip_frac(frac, 6);
        let fs = pad_string(f, w);
        out.append(fs.as_str());
    }
    proof {
        assert(out@ =~= old(out)@ + sec_text(us as int));
    }
}

/// Append the decimal text of `m` thousandths.
pub fn push_milli(out: &mut String, m: u32)
    ensures
        final(out)@ == old(out)@ + milli_text(m as int),
{
    let whole = (m / 1000) as u64;
    let frac = (m % 1000) as u64;
    push_u64(out, whole);
    if frac != 0 {
        proof {
            reveal_strlit(".");
            assert(ten_pow(3nat) == 1000) by {
                reveal_with_fuel(ten_pow, 5);
            }
        }
        out.append(".");
        let (f, w) = strip_frac(frac, 3);
        let fs = pad_string(f, w);
        out.append(fs.as_str());
    }
    proof {
        assert(out@ =~= old(out)@ + milli_text(m as int));
    }
}

/// The HH:MM:SS.mmm clock text of a microsecond count.
pub fn hms_string(us: i64) -> (r: String)
    ensures
        r@ == hms_text(us as int),
{
    let mut out = String::new();
    let neg = us < 0;
    let mag: u64 = if neg {
        (-(us as i128)) as u64
    } else {
        us as u64
    };
    if neg {
        proof {
            reveal_strlit("-");
        }
        out.append("-");
    }
    proof {
        reveal_strlit(":");
        reveal_strlit(".");
    }
    let total_ms = mag / 1000;
    let ms = total_ms % 1000;
    let total_secs = total_ms / 1000;
    let secs = total_secs % 60;
    let total_mins = total_secs / 60;
    let mins = total_mins % 60;
    let hours = total_mins / 60;
    push_pad2(&mut out, hours);
    out.append(":");
    push_pad2(&mut out, mins);
    out.append(":");
    push_pad2(&mut out, secs);
    out.append(".");
    let msf = pad_string(ms, 3);
    out.append(msf.as_str());
    proof {
        assert(out@ =~= hms_text(us as int));
    }
    out
}

impl crate::time::TimeUs {
    /// The HH:MM:SS.mmm clock text of this timestamp.
    pub fn format(&self) -> (r: String)
        ensures
            r@ == hms_text(self.0 as int),
    {
        hms_string(self.0)
    }
}

/// Append decimal text zero-padded to at least two characters.
fn push_pad2(out: &mut String, n: u64)
    ensures
        final(out)@ == old(out)@ + pad2(n as int),
{
    if n < 10 {
        proof {
            reveal_strlit("0");
        }
        out.append("0");
        push_u64(out, n);
        proof {
            assert(out@ =~= old(out)@ + pad2(n as int));
        }
    } else {
        push_u64(out, n);
    }
}

} // verus!

//! The filters that the page templates use.
use vstd::prelude::*;
use vstd::slice::slice_subrange;
use vstd::string::*;

use crate::numerals::decimal_u64;
use crate::text::{chars_of, joined, string_of};

verus! {

/// `s`, cut after `n` characters, with an ellipsis for what was cut off.
pub open spec fn truncated(s: Seq<char>, n: int) -> Seq<char> {
    if s.len() <= n {
        s
    } else {
        s.take(n).push('\u{2026}')
    }
}

/// A text, cut after so many characters, 72 where no number is given.
pub fn filter_truncate(s: &str, len: Option<usize>) -> (r: String)
    ensures
        r@ == truncated(
            s@,
            match len {
                Some(n) => n as int,
                None => 72,
            },
        ),
{
    let n: usize = match len {
        Some(n) => n,
        None => 72,
    };
    let text = chars_of(s);
    if text.len() <= n {
        s.to_owned()
    } else {
        let mut out = string_of(slice_subrange(text.as_slice(), 0, n));
        out.push('\u{2026}');
        out
    }
}

/// The first characters of a text, eight at most.
pub fn filter_short_sha(sha: &str) -> (r: String)
    ensures
        r@ == (if sha@.len() <= 8 {
            sha@
        } else {
            sha@.take(8)
        }),
{
    let text = chars_of(sha);
    let n: usize = if text.len() <= 8 {
        text.len()
    } else {
        8
    };
    string_of(slice_subrange(text.as_slice(), 0, n))
}

/// A cut text is no longer than the limit and the ellipsis, and begins as the text does.
pub proof fn truncation_keeps_the_front(s: Seq<char>, n: int)
    requires
        n >= 0,
    ensures
        truncated(s, n).len() <= n + 1,
        s.len() <= n ==> truncated(s, n) == s,
        s.len() > n ==> truncated(s, n).take(n) == s.take(n),
{
}

/// The integer nearest to `num / den`, the even one of two that are equally near.
pub open spec fn nearest_even(num: int, den: int) -> int {
    let q = num / den;
    let rest = num % den;
    if 2 * rest > den || (2 * rest == den && q % 2 == 1) {
        q + 1
    } else {
        q
    }
}

/// The distance between the double-precision numbers around `n`, but one where every integer is
/// such a number.
pub open spec fn double_step(n: int) -> int
    decreases n,
{
    if n < 0x20_0000_0000_0000 {
        1
    } else {
        2 * double_step(n / 2)
    }
}

/// The double-precision number nearest to `n`.
pub open spec fn as_double(n: int) -> int {
    nearest_even(n, double_step(n)) * double_step(n)
}

/// The tenths of the unit, to the nearest one.
pub open spec fn tenths_of(n: int, unit: int) -> int {
    nearest_even(as_double(n) * 10, unit)
}

/// A number of tenths, with its point.
pub open spec fn with_point(tenths: int) -> Seq<char> {
    crate::numerals::decimal((tenths / 10) as nat) + "."@ + crate::numerals::decimal(
        (tenths % 10) as nat,
    )
}

/// A number of bytes in the largest unit of which there is a whole one, up to GB, with one digit
/// behind the point, but plain bytes without.
pub open spec fn file_size(n: int) -> Seq<char> {
    if n < 1024 {
        crate::numerals::decimal(n as nat) + " B"@
    } else if n < 1_048_576 {
        with_point(tenths_of(n, 1024)) + " KB"@
    } else if n < 1_073_741_824 {
        with_point(tenths_of(n, 1_048_576)) + " MB"@
    } else {
        with_point(tenths_of(n, 1_073_741_824)) + " GB"@
    }
}

/// The integer nearest to `num / den`.
fn round_even(num: u128, den: u128) -> (r: u128)
    requires
        0 < den <= 0x1_0000_0000,
        num <= 0x1_0000_0000_0000_0000_0000,
    ensures
        r == nearest_even(num as int, den as int),
        r <= num + 1,
{
    let q: u128 = num / den;
    let rest: u128 = num % den;
    assert(q <= num) by (nonlinear_arith)
        requires
            q == num / den,
            den > 0,
    ;
    if 2 * rest > den || (2 * rest == den && q % 2 == 1) {
        q + 1
    } else {
        q
    }
}

/// The distance between the double-precision numbers around `n`.
fn step_of(n: u64) -> (r: u64)
    requires
        n <= i64::MAX,
    ensures
        r == double_step(n as int),
        1 <= r <= 2048,
{
    let mut step: u64 = 1;
    let mut rest: u64 = n;
    while rest >= 0x20_0000_0000_0000
        invariant
            n <= i64::MAX,
            1 <= step,
            rest * step <= n,
            rest >= 0x20_0000_0000_0000 ==> step <= 1024,
            step <= 2048,
            step * double_step(rest as int) == double_step(n as int),
        decreases rest,
    {
        let half: u64 = rest / 2;
        assert(half * (2 * step) <= rest * step) by (nonlinear_arith)
            requires
                half == rest / 2,
                step >= 1,
        ;
        assert(double_step(rest as int) == 2 * double_step(half as int));
        assert((step * 2) * double_step(half as int) == step * (2 * double_step(half as int)))
            by (nonlinear_arith);
        rest = half;
        step = step * 2;
        if rest >= 0x20_0000_0000_0000 {
            assert(step <= 1024) by (nonlinear_arith)
                requires
                    rest * step <= 0x7fff_ffff_ffff_ffff,
                    rest >= 0x20_0000_0000_0000,
            ;
        }
    }
    assert(double_step(rest as int) == 1);
    assert(step * 1 == step);
    step
}

/// The tenths of the unit in `n`.
fn tenths(n: u64, unit: u64) -> (r: u64)
    requires
        n <= i64::MAX,
        1024 <= unit <= 0x4000_0000,
    ensures
        r == tenths_of(n as int, unit as int),
{
    let step: u64 = step_of(n);
    let quotient: u128 = round_even(n as u128, step as u128);
    let ghost exact = nearest_even(n as int, step as int);
    assert(quotient * step <= 0x8000_0000_0000_0800) by {
        assert(exact * step <= n + step) by {
            rounding_is_near(n as int, step as int);
        }
    }
    let double: u128 = quotient * (step as u128);
    let scaled: u128 = double * 10;
    let result: u128 = round_even(scaled, unit as u128);
    assert(result <= 0xffff_ffff_ffff_ffff) by {
        rounding_is_near(scaled as int, unit as int);
        assert(result <= 0xffff_ffff_ffff_ffff) by (nonlinear_arith)
            requires
                result * unit <= scaled + unit,
                scaled <= 0x8000_0000_0000_0800 * 10,
                1024 <= unit <= 0x4000_0000,
        ;
    }
    result as u64
}

/// Rounding goes no further up than to the next multiple.
proof fn rounding_is_near(num: int, den: int)
    requires
        den > 0,
        num >= 0,
    ensures
        nearest_even(num, den) * den <= num + den,
        nearest_even(num, den) >= 0,
{
    let q = num / den;
    assert(q * den <= num) by (nonlinear_arith)
        requires
            q == num / den,
            den > 0,
    ;
    assert((q + 1) * den == q * den + den) by (nonlinear_arith);
    assert(q >= 0) by (nonlinear_arith)
        requires
            q == num / den,
            den > 0,
            num >= 0,
    ;
}

/// A number of tenths, with its point.
fn pointed(tenths: u64) -> (r: String)
    ensures
        r@ == with_point(tenths as int),
{
    let mut out = decimal_u64(tenths / 10);
    out.append(".");
    out.append(decimal_u64(tenths % 10).as_str());
    out
}

/// A number of bytes, for people. What is not a number counts as none, and so does a negative
/// one.
pub fn filter_filesize(bytes: Option<i64>) -> (r: String)
    ensures
        r@ == file_size(
            match bytes {
                Some(n) => if n > 0 {
                    n as int
                } else {
                    0
                },
                None => 0,
            },
        ),
{
    let n: u64 = match bytes {
        Some(n) => if n > 0 {
            n as u64
        } else {
            0
        },
        None => 0,
    };
    if n < 1024 {
        joined(decimal_u64(n).as_str(), " B")
    } else if n < 1_048_576 {
        joined(pointed(tenths(n, 1024)).as_str(), " KB")
    } else if n < 1_073_741_824 {
        joined(pointed(tenths(n, 1_048_576)).as_str(), " MB")
    } else {
        joined(pointed(tenths(n, 1_073_741_824)).as_str(), " GB")
    }
}

/// A text that is longer than the limit is cut right behind it, and only an ellipsis follows; any
/// other text stays as it is.
pub proof fn ellipsis_stands_for_what_is_cut(s: Seq<char>, n: int)
    requires
        n >= 0,
    ensures
        s.len() > n ==> truncated(s, n).len() == n + 1 && truncated(s, n).last() == '\u{2026}'
            && truncated(s, n).drop_last() == s.take(n),
        s.len() <= n ==> truncated(s, n) == s,
{
    if s.len() > n {
        assert(truncated(s, n).drop_last() == s.take(n));
    }
}

/// Rounding goes to the nearest integer, and to the even one of two that are equally near.
pub proof fn rounding_goes_to_the_nearest(num: int, den: int)
    requires
        den > 0,
        num >= 0,
    ensures
        ({
            let r = nearest_even(num, den);
            &&& -den <= 2 * (r * den - num) <= den
            &&& 2 * (r * den - num) == den || 2 * (r * den - num) == -den ==> r % 2 == 0
        }),
{
    let q = num / den;
    let rest = num % den;
    assert(num == q * den + rest && 0 <= rest < den) by (nonlinear_arith)
        requires
            q == num / den,
            rest == num % den,
            den > 0,
    ;
    assert((q + 1) * den == q * den + den) by (nonlinear_arith);
}

/// Integers below 2^53 are double-precision numbers. From there on, the distance between those
/// numbers is a power of two, such that there are between 2^52 and 2^53 of it in the integer.
pub proof fn doubles_have_53_bits(n: int)
    requires
        n >= 0,
    ensures
        n < 0x20_0000_0000_0000 ==> double_step(n) == 1 && as_double(n) == n,
        n >= 0x20_0000_0000_0000 ==> 0x10_0000_0000_0000 * double_step(n) <= n
            < 0x20_0000_0000_0000 * double_step(n),
        -double_step(n) <= 2 * (as_double(n) - n) <= double_step(n),
        double_step(2 * n) == (if 2 * n < 0x20_0000_0000_0000 {
            1
        } else {
            2 * double_step(n)
        }),
    decreases n,
{
    step_fits(n);
    rounding_goes_to_the_nearest(n, double_step(n));
    if n < 0x20_0000_0000_0000 {
        assert(n / 1 == n);
        assert(nearest_even(n, 1) == n);
    }
}

proof fn step_fits(n: int)
    requires
        n >= 0,
    ensures
        double_step(n) >= 1,
        n < 0x20_0000_0000_0000 * double_step(n),
        n >= 0x20_0000_0000_0000 ==> 0x10_0000_0000_0000 * double_step(n) <= n,
    decreases n,
{
    if n >= 0x20_0000_0000_0000 {
        step_fits(n / 2);
    }
}

/// Whether a text is a number with one digit behind its point, the number of tenths nearest to
/// `n / unit`, the even one of two that are equally near, and the name of the unit behind it.
pub open spec fn tells_size(text: Seq<char>, n: int, unit: int, name: Seq<char>, t: nat) -> bool {
    &&& text == crate::numerals::decimal(t / 10) + "."@ + crate::numerals::decimal(t % 10) + name
    &&& -unit <= 2 * (t * unit - 10 * n) <= unit
    &&& 2 * (t * unit - 10 * n) == unit || 2 * (t * unit - 10 * n) == -unit ==> t % 2 == 0
}

/// A size is told in bytes below 1024, in KB below 1024 of those, in MB below 1024 of those, and in
/// GB from there on; and but for bytes it is told to the nearest tenth. Sizes from 2^53 on are taken
/// as the nearest double-precision number.
pub proof fn size_is_told_to_the_nearest_tenth(n: int) -> (t: nat)
    requires
        0 <= n,
    ensures
        n < 1024 ==> file_size(n) == crate::numerals::decimal(n as nat) + " B"@,
        1024 <= n < 1024 * 1024 ==> tells_size(file_size(n), n, 1024, " KB"@, t),
        1024 * 1024 <= n < 1024 * 1024 * 1024 ==> tells_size(
            file_size(n),
            n,
            1024int * 1024,
            " MB"@,
            t,
        ),
        1024 * 1024 * 1024 <= n < 0x20_0000_0000_0000 ==> tells_size(
            file_size(n),
            n,
            1024int * 1024 * 1024,
            " GB"@,
            t,
        ),
        0x20_0000_0000_0000 <= n ==> tells_size(
            file_size(n),
            as_double(n),
            1024int * 1024 * 1024,
            " GB"@,
            t,
        ),
{
    doubles_have_53_bits(n);
    let unit: int = if n < 1_048_576 {
        1024
    } else if n < 1_073_741_824 {
        1_048_576
    } else {
        1_073_741_824
    };
    let double = as_double(n);
    step_fits(n);
    rounding_goes_to_the_nearest(10 * double, unit);
    rounding_is_near(10 * double, unit);
    nearest_even(10 * double, unit) as nat
}

} // verus!

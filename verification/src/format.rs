//! Rendering of counts, capacities and durations for the traversal report.
//!
//! Everything is computed in integers: capacities are rounded to
//! hundredths (nearest, halves up) before printing, durations are split
//! into unit buckets, and counts get thousands separators.

use vstd::prelude::*;
use vstd::string::StrSliceExecFns;
use vstd::string::StringExecFns;

verus! {

/// The decimal digit character for `d` (expected below ten).
pub open spec fn digit_char(d: nat) -> char {
    (((48 + d % 10) as u8) as char)
}

/// The decimal rendering of `n`, most significant digit first.
pub open spec fn dec_digits(n: nat) -> Seq<char>
    decreases n,
{
    if n < 10 {
        seq![digit_char(n)]
    } else {
        dec_digits(n / 10).push(digit_char(n % 10))
    }
}

/// `n` spaces.
pub open spec fn spaces(n: nat) -> Seq<char>
    decreases n,
{
    if n == 0 {
        Seq::<char>::empty()
    } else {
        spaces((n - 1) as nat).push(' ')
    }
}

/// `s` right-aligned in a field of `w` characters; a longer `s` stays as
/// it is.
pub open spec fn right_aligned(s: Seq<char>, w: nat) -> Seq<char> {
    if s.len() >= w {
        s
    } else {
        spaces((w - s.len()) as nat) + s
    }
}

/// The decimal rendering of `n` with a comma between each group of three
/// digits.
pub open spec fn grouped_digits(n: nat) -> Seq<char>
    decreases n,
{
    if n < 1000 {
        dec_digits(n)
    } else {
        grouped_digits(n / 1000) + seq![','] + seq![
            digit_char((n / 100) % 10),
            digit_char((n / 10) % 10),
            digit_char(n % 10),
        ]
    }
}

/// Append one character. Relies on String::push, which appends exactly
/// that character.
#[verifier::external_body]
pub(crate) fn push_char(s: &mut String, c: char)
    ensures
        final(s)@ == old(s)@ + seq![c],
{
    s.push(c);
}

/// The decimal rendering of `n`.
pub fn u64_to_string(n: u64) -> (r: String)
    ensures
        r@ == dec_digits(n as nat),
    decreases n,
{
    if n < 10 {
        let mut s = String::new();
        push_char(&mut s, (48u8 + (n as u8)) as char);
        proof {
            assert(Seq::<char>::empty() + seq![digit_char(n as nat)] =~= seq![
                digit_char(n as nat),
            ]);
        }
        s
    } else {
        let mut s = u64_to_string(n / 10);
        push_char(&mut s, (48u8 + ((n % 10) as u8)) as char);
        s
    }
}

/// `s` right-aligned in a field of `width` characters.
pub fn right_align(s: String, width: usize) -> (r: String)
    ensures
        r@ == right_aligned(s@, width as nat),
{
    let len = s.as_str().unicode_len();
    if len >= width {
        s
    } else {
        let mut r = String::new();
        let mut k: usize = 0;
        while k < width - len
            invariant
                k <= width - len,
                len == s@.len(),
                width > len,
                r@ == spaces(k as nat),
            decreases width - len - k,
        {
            push_char(&mut r, ' ');
            k = k + 1;
        }
        r.append(s.as_str());
        r
    }
}

/// `s` left-aligned in a field of `w` characters; a longer `s` stays as
/// it is.
pub open spec fn left_aligned(s: Seq<char>, w: nat) -> Seq<char> {
    if s.len() >= w {
        s
    } else {
        s + spaces((w - s.len()) as nat)
    }
}

/// `s` left-aligned in a field of `width` characters.
pub fn left_align(s: String, width: usize) -> (r: String)
    ensures
        r@ == left_aligned(s@, width as nat),
{
    let len = s.as_str().unicode_len();
    if len >= width {
        s
    } else {
        let mut r = s;
        let ghost s0 = r@;
        let mut k: usize = 0;
        while k < width - len
            invariant
                k <= width - len,
                len == s0.len(),
                width > len,
                r@ == s0 + spaces(k as nat),
            decreases width - len - k,
        {
            proof {
                assert(s0 + spaces((k + 1) as nat) =~= (s0 + spaces(k as nat)).push(' '));
            }
            push_char(&mut r, ' ');
            k = k + 1;
        }
        r
    }
}

/// `n` copies of `c`.
pub open spec fn repeated(c: char, n: nat) -> Seq<char>
    decreases n,
{
    if n == 0 {
        Seq::<char>::empty()
    } else {
        repeated(c, (n - 1) as nat).push(c)
    }
}

/// A string of `n` copies of `c`, as the report's separator lines use.
pub fn repeat_char(c: char, n: usize) -> (r: String)
    ensures
        r@ == repeated(c, n as nat),
{
    let mut r = String::new();
    let mut k: usize = 0;
    while k < n
        invariant
            k <= n,
            r@ == repeated(c, k as nat),
        decreases n - k,
    {
        push_char(&mut r, c);
        k = k + 1;
    }
    r
}

/// A count of thousandths rendered with three decimals: `1500` is
/// `1.500`.
pub open spec fn fixed3(m: nat) -> Seq<char> {
    dec_digits(m / 1000) + seq![
        '.',
        digit_char((m / 100) % 10),
        digit_char((m / 10) % 10),
        digit_char(m % 10),
    ]
}

/// Elapsed nanoseconds as thousandths of a second, rounded to nearest
/// with halves up.
pub open spec fn second_thousandths(ns: nat) -> nat {
    (ns + 500000) / 1000000
}

/// Render elapsed nanoseconds as seconds with three decimals.
pub fn format_seconds(ns: u64) -> (r: String)
    ensures
        r@ == fixed3(second_thousandths(ns as nat)),
{
    let m_wide: u128 = ((ns as u128) + 500000) / 1000000;
    assert(m_wide <= u64::MAX) by {
        assert((ns as u128) + 500000 <= 0xffffffffffffffffu128 + 500000);
    };
    let m = m_wide as u64;
    let mut s = u64_to_string(m / 1000);
    push_char(&mut s, '.');
    push_char(&mut s, (48u8 + (((m / 100) % 10) as u8)) as char);
    push_char(&mut s, (48u8 + (((m / 10) % 10) as u8)) as char);
    push_char(&mut s, (48u8 + ((m % 10) as u8)) as char);
    proof {
        assert(fixed3(second_thousandths(ns as nat)) =~= dec_digits((m as nat) / 1000).push(
            '.',
        ).push(digit_char(((m / 100) % 10) as nat)).push(digit_char(((m / 10) % 10) as nat)).push(
            digit_char((m % 10) as nat),
        ));
    }
    s
}

/// The decimal rendering of `number` with thousands separators, right
/// aligned in a field of `width` characters.
pub fn format_number(number: usize, width: usize) -> (r: String)
    ensures
        r@ == right_aligned(grouped_digits(number as nat), width as nat),
{
    let digits = u64_grouped(number as u64);
    right_align(digits, width)
}

/// A count of hundredths rendered with two decimals: `180` is `1.80`.
pub open spec fn fixed2(h: nat) -> Seq<char> {
    dec_digits(h / 100) + seq!['.', digit_char((h / 10) % 10), digit_char(h % 10)]
}

/// `bytes` scaled by `div`, in hundredths, rounded to nearest with halves
/// up.
pub open spec fn size_hundredths(bytes: nat, div: nat) -> nat
    recommends
        div > 0,
{
    (bytes * 100 + div / 2) / div
}

/// How a capacity in bytes is rendered: gibibytes with two decimals, and
/// from 1024 GiB up a terabyte figure of a thousand gibibytes, the number
/// right-aligned to nine characters.
pub open spec fn spec_format_size(bytes: nat) -> Seq<char> {
    if bytes >= 1099511627776 {
        right_aligned(fixed2(size_hundredths(bytes, 1073741824000)), 9) + " TB"@
    } else {
        right_aligned(fixed2(size_hundredths(bytes, 1073741824)), 9) + " GB"@
    }
}

/// Render a capacity in bytes as `spec_format_size` says.
pub fn format_size(size: u64) -> (r: String)
    ensures
        r@ == spec_format_size(size as nat),
{
    if size >= 1099511627776u64 {
        let h_wide: u128 = ((size as u128) * 100 + 536870912000) / 1073741824000;
        assert(h_wide <= u64::MAX) by {
            assert((size as u128) * 100 + 536870912000 <= 0xffffffffffffffffu128 * 100
                + 536870912000);
        };
        let h = h_wide as u64;
        let mut out = right_align(fixed2_exec(h), 9);
        out.append(" TB");
        out
    } else {
        let h_wide: u128 = ((size as u128) * 100 + 536870912) / 1073741824;
        assert(h_wide <= u64::MAX) by {
            assert((size as u128) * 100 + 536870912 <= 0xffffffffffffffffu128 * 100 + 536870912);
        };
        let h = h_wide as u64;
        let mut out = right_align(fixed2_exec(h), 9);
        out.append(" GB");
        out
    }
}

fn fixed2_exec(h: u64) -> (r: String)
    ensures
        r@ == fixed2(h as nat),
{
    let mut s = u64_to_string(h / 100);
    push_char(&mut s, '.');
    push_char(&mut s, (48u8 + (((h / 10) % 10) as u8)) as char);
    push_char(&mut s, (48u8 + ((h % 10) as u8)) as char);
    proof {
        assert(fixed2(h as nat) =~= dec_digits((h as nat) / 100).push('.').push(
            digit_char(((h / 10) % 10) as nat),
        ).push(digit_char((h % 10) as nat)));
    }
    s
}

/// How an elapsed time in nanoseconds is rendered: the coarsest unit with
/// a nonzero count picks the bucket, and each bucket shows two adjacent
/// units.
pub open spec fn spec_format_duration(ns: nat) -> Seq<char> {
    let total_seconds = ns / 1000000000;
    let seconds = total_seconds % 60;
    let minutes = (total_seconds / 60) % 60;
    let hours = (total_seconds / 3600) % 24;
    let days = total_seconds / 86400;
    let millis = (ns / 1000000) % 1000;
    let micros = (ns / 1000) % 1000;
    let nanos = ns % 1000;
    if days > 0 {
        right_aligned(dec_digits(days), 2) + "d "@ + right_aligned(dec_digits(hours), 2) + "h "@
            + right_aligned(dec_digits(minutes), 2) + "m "@ + right_aligned(dec_digits(seconds), 2)
            + "s"@
    } else if hours > 0 {
        right_aligned(dec_digits(hours), 2) + "h "@ + right_aligned(dec_digits(minutes), 2) + "m "@
            + right_aligned(dec_digits(seconds), 2) + "s"@
    } else if minutes > 0 {
        right_aligned(dec_digits(minutes), 3) + " m  "@ + right_aligned(dec_digits(seconds), 3)
            + " s "@
    } else if seconds > 0 {
        right_aligned(dec_digits(seconds), 3) + " s  "@ + right_aligned(dec_digits(millis), 3)
            + " ms"@
    } else if millis > 0 {
        right_aligned(dec_digits(millis), 3) + " ms "@ + right_aligned(dec_digits(micros), 3)
            + " μs"@
    } else if micros > 0 {
        right_aligned(dec_digits(micros), 3) + " μs "@ + right_aligned(dec_digits(nanos), 3)
            + " ns"@
    } else {
        right_aligned(dec_digits(nanos), 3) + "ns"@
    }
}

/// Render an elapsed time in nanoseconds as `spec_format_duration` says.
pub fn format_duration(duration_ns: u64) -> (r: String)
    ensures
        r@ == spec_format_duration(duration_ns as nat),
{
    let ns = duration_ns;
    let total_seconds = ns / 1000000000;
    let seconds = total_seconds % 60;
    let minutes = (total_seconds / 60) % 60;
    let hours = (total_seconds / 3600) % 24;
    let days = total_seconds / 86400;
    let millis = (ns / 1000000) % 1000;
    let micros = (ns / 1000) % 1000;
    let nanos = ns % 1000;
    if days > 0 {
        let mut out = right_align(u64_to_string(days), 2);
        out.append("d ");
        let h = right_align(u64_to_string(hours), 2);
        out.append(h.as_str());
        out.append("h ");
        let m = right_align(u64_to_string(minutes), 2);
        out.append(m.as_str());
        out.append("m ");
        let s = right_align(u64_to_string(seconds), 2);
        out.append(s.as_str());
        out.append("s");
        out
    } else if hours > 0 {
        let mut out = right_align(u64_to_string(hours), 2);
        out.append("h ");
        let m = right_align(u64_to_string(minutes), 2);
        out.append(m.as_str());
        out.append("m ");
        let s = right_align(u64_to_string(seconds), 2);
        out.append(s.as_str());
        out.append("s");
        out
    } else if minutes > 0 {
        let mut out = right_align(u64_to_string(minutes), 3);
        out.append(" m  ");
        let s = right_align(u64_to_string(seconds), 3);
        out.append(s.as_str());
        out.append(" s ");
        out
    } else if seconds > 0 {
        let mut out = right_align(u64_to_string(seconds), 3);
        out.append(" s  ");
        let ms = right_align(u64_to_string(millis), 3);
        out.append(ms.as_str());
        out.append(" ms");
        out
    } else if millis > 0 {
        let mut out = right_align(u64_to_string(millis), 3);
        out.append(" ms ");
        let us = right_align(u64_to_string(micros), 3);
        out.append(us.as_str());
        out.append(" μs");
        out
    } else if micros > 0 {
        let mut out = right_align(u64_to_string(micros), 3);
        out.append(" μs ");
        let nsr = right_align(u64_to_string(nanos), 3);
        out.append(nsr.as_str());
        out.append(" ns");
        out
    } else {
        let mut out = right_align(u64_to_string(nanos), 3);
        out.append("ns");
        out
    }
}

pub(crate) fn u64_grouped(n: u64) -> (r: String)
    ensures
        r@ == grouped_digits(n as nat),
    decreases n,
{
    if n < 1000 {
        u64_to_string(n)
    } else {
        let mut s = u64_grouped(n / 1000);
        push_char(&mut s, ',');
        push_char(&mut s, (48u8 + (((n / 100) % 10) as u8)) as char);
        push_char(&mut s, (48u8 + (((n / 10) % 10) as u8)) as char);
        push_char(&mut s, (48u8 + ((n % 10) as u8)) as char);
        proof {
            assert(grouped_digits(n as nat) =~= grouped_digits((n / 1000) as nat) + seq![','].push(
                digit_char(((n / 100) % 10) as nat),
            ).push(digit_char(((n / 10) % 10) as nat)).push(digit_char((n % 10) as nat)));
        }
        s
    }
}

} // verus!

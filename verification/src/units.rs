//! Human readable units.

use crate::text;
use vstd::prelude::*;
use vstd::string::StringExecFns;
use vstd::utf8;

verus! {

// Rounding.

/// `n / d` to the nearest whole number, halfway to the even one.
pub open spec fn half_even(n: nat, d: nat) -> nat {
    let q = n / d;
    let r = n % d;
    if 2 * r > d || (2 * r == d && q % 2 == 1) {
        q + 1
    } else {
        q
    }
}

fn round_half_even(n: u128, d: u128) -> (r: u128)
    requires
        d > 0,
        d <= 0x1_0000_0000_0000_0000,
        n <= 0x100_0000_0000_0000_0000,
    ensures
        r == half_even(n as nat, d as nat),
{
    let q: u128 = n / d;
    let rest: u128 = n % d;
    proof {
        assert(n / d <= n) by (nonlinear_arith)
            requires
                d > 0,
        ;
        assert(rest < d) by (nonlinear_arith)
            requires
                d > 0,
                rest == n % d,
        ;
    }
    if 2 * rest > d || (2 * rest == d && q % 2 == 1) {
        q + 1
    } else {
        q
    }
}

/// The number as double precision holds it: up to 53 binary digits as it is,
/// beyond that the nearest multiple of the power of two that leaves 53.
pub open spec fn double(n: nat) -> nat
    decreases n,
{
    if n < 0x20_0000_0000_0000 {
        n
    } else {
        coarse(n, 2)
    }
}

/// The nearest multiple of the first power of two from `step` on that leaves
/// at most 53 binary digits.
pub open spec fn coarse(n: nat, step: nat) -> nat
    decreases n / step,
{
    if step == 0 || n / step < 0x20_0000_0000_0000 {
        half_even(n, step) * step
    } else {
        proof {
            assert(n / (2 * step) < n / step) by (nonlinear_arith)
                requires
                    step > 0,
                    n / step > 0,
            ;
        }
        coarse(n, 2 * step)
    }
}

fn as_double(n: u64) -> (r: u128)
    ensures
        r == double(n as nat),
        r <= 0x1_0000_0000_0000_0000,
{
    if n < 0x20_0000_0000_0000 {
        return n as u128;
    }
    let mut step: u128 = 2;
    while n as u128 / step >= 0x20_0000_0000_0000
        invariant
            2 <= step <= 2048,
            n >= 0x20_0000_0000_0000,
            coarse(n as nat, 2) == coarse(n as nat, step as nat),
            step == 2 || step == 4 || step == 8 || step == 16 || step == 32 || step == 64 || step
                == 128 || step == 256 || step == 512 || step == 1024 || step == 2048,
        decreases 4096 - step,
    {
        assert(step < 2048) by {
            assert(n as u128 / 2048 < 0x20_0000_0000_0000);
        }
        step = step * 2;
    }
    let q: u128 = round_half_even(n as u128, step);
    proof {
        let m = 0x1_0000_0000_0000_0000nat;
        let k = n as nat / step as nat;
        assert(n as nat == step as nat * k + n as nat % step as nat) by (nonlinear_arith)
            requires
                k == n as nat / step as nat,
                step > 0,
        ;
        assert(m % step as nat == 0);
        if q * step > m {
            let w = m / step as nat;
            assert(m == step as nat * w) by (nonlinear_arith)
                requires
                    m % step as nat == 0,
                    w == m / step as nat,
                    step > 0,
            ;
            assert(k < w) by (nonlinear_arith)
                requires
                    step as nat * k <= n,
                    n < m,
                    m == step as nat * w,
                    step > 0,
            ;
            assert(q * step <= w * step) by (nonlinear_arith)
                requires
                    q <= k + 1,
                    k + 1 <= w,
            ;
            assert(false) by (nonlinear_arith)
                requires
                    q * step <= w * step,
                    m == step as nat * w,
                    q * step > m,
            ;
        }
        assert(q * step <= m);
        assert(coarse(n as nat, step as nat) == half_even(n as nat, step as nat) * step as nat);
    }
    q * step
}

// Bytes.

/// Name of the `i`th unit.
pub open spec fn unit(i: nat) -> Seq<char> {
    if i == 0 {
        "B"@
    } else if i == 1 {
        "KiB"@
    } else if i == 2 {
        "MiB"@
    } else if i == 3 {
        "GiB"@
    } else {
        "TiB"@
    }
}

/// Size of the `i`th unit.
pub open spec fn unit_size(i: nat) -> nat {
    if i == 0 {
        1
    } else if i == 1 {
        0x400
    } else if i == 2 {
        0x10_0000
    } else if i == 3 {
        0x4000_0000
    } else {
        0x100_0000_0000
    }
}

/// The largest unit of which the number holds at least one.
pub open spec fn unit_for(n: nat) -> nat {
    if n < unit_size(1) {
        0
    } else if n < unit_size(2) {
        1
    } else if n < unit_size(3) {
        2
    } else if n < unit_size(4) {
        3
    } else {
        4
    }
}

/// Tenths as a number with one digit behind the point.
pub open spec fn one_decimal(tenths: nat) -> Seq<char> {
    text::dec(tenths / 10) + "."@ + text::dec(tenths % 10)
}

/// Bytes as `1.5 MiB`: whole below a kibibyte, to the nearest tenth of the
/// unit above it.
pub open spec fn bytes_text(bytes: nat) -> Seq<char> {
    let v = double(bytes);
    let i = unit_for(v);
    if i == 0 {
        text::dec(bytes) + " B"@
    } else {
        one_decimal(half_even(10 * v, unit_size(i))) + " "@ + unit(i)
    }
}

/// Bytes → `1.5 MiB`.
pub fn fmt_bytes(bytes: u64) -> (r: String)
    ensures
        r@ == bytes_text(bytes as nat),
{
    let v: u128 = as_double(bytes);
    if v < 0x400 {
        let mut s = text::decimal(bytes);
        s.append(" B");
        return s;
    }
    let size: u128;
    let name: &str;
    if v < 0x10_0000 {
        size = 0x400;
        name = "KiB";
    } else if v < 0x4000_0000 {
        size = 0x10_0000;
        name = "MiB";
    } else if v < 0x100_0000_0000 {
        size = 0x4000_0000;
        name = "GiB";
    } else {
        size = 0x100_0000_0000;
        name = "TiB";
    }
    let tenths: u128 = round_half_even(10 * v, size);
    proof {
        assert(tenths <= 10 * v + 1) by (nonlinear_arith)
            requires
                tenths <= (10 * v) / (size as int) + 1,
                size > 0,
                v >= 0,
        ;
        assert(tenths / 10 <= 0xffff_ffff_ffff_ffff) by {
            assert((10 * v) / (size as int) <= (10 * v) / 0x400) by (nonlinear_arith)
                requires
                    size >= 0x400,
                    v >= 0,
            ;
        }
    }
    let mut s = text::decimal((tenths / 10) as u64);
    s.append(".");
    s.append(text::decimal((tenths % 10) as u64).as_str());
    s.append(" ");
    s.append(name);
    s
}

// Times.

/// A number with at least two digits.
pub open spec fn two_digits(n: nat) -> Seq<char> {
    if n < 10 {
        "0"@ + text::dec(n)
    } else {
        text::dec(n)
    }
}

fn push_two_digits(s: &mut String, n: u64)
    ensures
        final(s)@ == old(s)@ + two_digits(n as nat),
{
    let ghost before = s@;
    if n < 10 {
        s.append("0");
    }
    s.append(text::decimal(n).as_str());
    assert(s@ =~= before + two_digits(n as nat));
}

/// Seconds as `1h02m03s` / `2m03s` / `3s`.
pub open spec fn duration_text(s: nat) -> Seq<char> {
    if s >= 3600 {
        text::dec(s / 3600) + "h"@ + two_digits(s % 3600 / 60) + "m"@ + two_digits(s % 60) + "s"@
    } else if s >= 60 {
        text::dec(s / 60) + "m"@ + two_digits(s % 60) + "s"@
    } else {
        text::dec(s) + "s"@
    }
}

/// Whole seconds → `1h02m03s` / `2m03s` / `3s`.
pub fn fmt_duration(secs: u64) -> (r: String)
    ensures
        r@ == duration_text(secs as nat),
{
    let h: u64 = secs / 3600;
    let m: u64 = secs % 3600 / 60;
    let sec: u64 = secs % 60;
    let mut s = String::new();
    assert(s@ + text::dec(h as nat) =~= text::dec(h as nat));
    assert(s@ + text::dec(m as nat) =~= text::dec(m as nat));
    assert(s@ + text::dec(sec as nat) =~= text::dec(sec as nat));
    if h > 0 {
        s.append(text::decimal(h).as_str());
        s.append("h");
        push_two_digits(&mut s, m);
        s.append("m");
        push_two_digits(&mut s, sec);
    } else if m > 0 {
        s.append(text::decimal(m).as_str());
        s.append("m");
        push_two_digits(&mut s, sec);
    } else {
        s.append(text::decimal(sec).as_str());
    }
    s.append("s");
    s
}

/// Second of the day at a time zone's offset, `secs` after the epoch.
pub open spec fn second_of_day(secs: int, offset: int) -> nat {
    ((secs + offset) % 86_400) as nat
}

/// `HH:MM:SS` of a second of the day.
pub open spec fn clock_text(day: nat) -> Seq<char> {
    two_digits(day / 3600) + ":"@ + two_digits(day % 3600 / 60) + ":"@ + two_digits(day % 60)
}

fn local_second(secs: u64, offset: i64) -> (r: u64)
    ensures
        r == second_of_day(secs as int, offset as int),
        r < 86_400,
{
    let ahead: u64 = if offset >= 0 {
        offset as u64 % 86_400
    } else {
        86_399 - (-(offset + 1)) as u64 % 86_400
    };
    assert(ahead == offset as int % 86_400);
    (secs % 86_400 + ahead) % 86_400
}

/// Local wall-clock time `HH:MM:SS`, `secs` after the epoch in a time zone
/// `offset` seconds ahead of UTC.
pub fn now_hms(secs: u64, offset: i64) -> (r: String)
    ensures
        r@ == clock_text(second_of_day(secs as int, offset as int)),
{
    let day: u64 = local_second(secs, offset);
    let h: u64 = day / 3600;
    let m: u64 = day % 3600 / 60;
    let sec: u64 = day % 60;
    let mut s = String::new();
    push_two_digits(&mut s, h);
    assert(s@ =~= two_digits(h as nat));
    s.append(":");
    push_two_digits(&mut s, m);
    s.append(":");
    push_two_digits(&mut s, sec);
    s
}

proof fn two_digits_are_two(n: nat)
    requires
        n < 100,
    ensures
        two_digits(n).len() == 2,
{
    reveal_strlit("0");
    reveal_with_fuel(text::dec, 2);
}

/// The clock shows `HH:MM:SS`: eight characters with colons after the hours
/// and the minutes, whatever the time and the time zone.
pub proof fn the_clock_has_its_shape(secs: int, offset: int)
    ensures
        clock_text(second_of_day(secs, offset)).len() == 8,
        clock_text(second_of_day(secs, offset))[2] == ':',
        clock_text(second_of_day(secs, offset))[5] == ':',
{
    let day = second_of_day(secs, offset);
    reveal_strlit(":");
    two_digits_are_two(day / 3600);
    two_digits_are_two(day % 3600 / 60);
    two_digits_are_two(day % 60);
}

/// Value of a digit as a byte.
pub open spec fn byte_digit(b: u8) -> Option<int> {
    if 0x30 <= b <= 0x39 {
        Some(b - 0x30)
    } else {
        None
    }
}

/// Value of a number of two bytes, of which the first may be a sign.
pub open spec fn two_bytes(a: u8, b: u8) -> Option<int> {
    match byte_digit(b) {
        None => None,
        Some(d) => if a == 0x2b {
            Some(d)
        } else if a == 0x2d {
            Some(-d)
        } else {
            match byte_digit(a) {
                Some(t) => Some(10 * t + d),
                None => None,
            }
        },
    }
}

/// Seconds of `+HHMM` or `-HHMM`.
pub open spec fn utc_offset(b: Seq<u8>) -> Option<int> {
    if b.len() != 5 || !(b[0] == 0x2b || b[0] == 0x2d) {
        None
    } else {
        match (two_bytes(b[1], b[2]), two_bytes(b[3], b[4])) {
            (Some(h), Some(m)) => Some(
                if b[0] == 0x2b {
                    h * 3600 + m * 60
                } else {
                    -(h * 3600 + m * 60)
                },
            ),
            _ => None,
        }
    }
}

fn read_two(a: u8, b: u8) -> (r: Option<i64>)
    ensures
        r is Some <==> two_bytes(a, b) is Some,
        r matches Some(v) ==> two_bytes(a, b) == Some(v as int) && -10 < v < 100,
{
    if b < 0x30 || b > 0x39 {
        return None;
    }
    let d: i64 = b as i64 - 0x30;
    if a == 0x2b {
        Some(d)
    } else if a == 0x2d {
        Some(-d)
    } else if 0x30 <= a && a <= 0x39 {
        Some(10 * (a as i64 - 0x30) + d)
    } else {
        None
    }
}

/// `+0800` → 28800, `-0430` → -16200.
pub fn parse_utc_offset(s: &str) -> (r: Option<i64>)
    requires
        ({
            let b = utf8::encode_utf8(s@);
            b.len() == 5 && (b[0] == 0x2b || b[0] == 0x2d) ==> utf8::is_char_boundary(b, 3)
        }),
    ensures
        r is Some <==> utc_offset(utf8::encode_utf8(s@)) is Some,
        r matches Some(v) ==> utc_offset(utf8::encode_utf8(s@)) == Some(v as int),
{
    let bytes = s.as_bytes();
    if bytes.len() != 5 {
        return None;
    }
    if bytes[0] != 0x2b && bytes[0] != 0x2d {
        return None;
    }
    match (read_two(bytes[1], bytes[2]), read_two(bytes[3], bytes[4])) {
        (Some(h), Some(m)) => if bytes[0] == 0x2b {
            Some(h * 3600 + m * 60)
        } else {
            Some(-(h * 3600 + m * 60))
        },
        _ => None,
    }
}

// What the figures say.

/// A fraction is rounded to the nearest whole number, and to the even one of
/// two that are equally near.
pub proof fn rounding_is_to_the_nearest(n: nat, d: nat)
    requires
        d > 0,
    ensures
        2 * (half_even(n, d) * d - n) <= d,
        2 * (n - half_even(n, d) * d) <= d,
        2 * (half_even(n, d) * d - n) == d || 2 * (n - half_even(n, d) * d) == d ==> half_even(n, d)
            % 2 == 0,
{
    let (q, r) = (n / d, n % d);
    assert(q * d + r == n && r < d) by (nonlinear_arith)
        requires
            d > 0,
            q == n / d,
            r == n % d,
    ;
    assert((q + 1) * d == q * d + d) by (nonlinear_arith);
}

/// Each unit is 1024 of the one before, and a figure is given in the largest
/// unit of which it has at least one.
pub proof fn units_go_by_1024(i: nat, n: nat)
    requires
        i < 4,
    ensures
        unit_size(0) == 1,
        unit_size(i + 1) == 1024 * unit_size(i),
        unit_for(n) <= 4,
        unit_for(n) > 0 ==> unit_size(unit_for(n)) <= n,
        unit_for(n) < 4 ==> n < unit_size(unit_for(n) + 1),
{
}

/// Figures below a KiB are whole bytes; larger ones have one decimal, which is
/// rounded.
pub proof fn figures_are_given_in_units(bytes: nat)
    requires
        bytes < 0x20_0000_0000_0000,
    ensures
        bytes < 1024 ==> bytes_text(bytes) == text::dec(bytes) + " B"@,
        bytes >= 1024 ==> {
            let i = unit_for(bytes);
            let tenths = half_even(10 * bytes, unit_size(i));
            bytes_text(bytes) == text::dec(tenths / 10) + "."@ + text::dec(tenths % 10) + " "@
                + unit(i)
        },
{
}

/// A duration is its hours, minutes and seconds, without the leading ones that
/// are zero.
pub proof fn durations_are_taken_apart(h: nat, m: nat, s: nat)
    requires
        m < 60,
        s < 60,
    ensures
        h > 0 ==> duration_text(h * 3600 + m * 60 + s) == text::dec(h) + "h"@ + two_digits(m) + "m"@
            + two_digits(s) + "s"@,
        m > 0 ==> duration_text(m * 60 + s) == text::dec(m) + "m"@ + two_digits(s) + "s"@,
        duration_text(s) == text::dec(s) + "s"@,
{
}

/// The time of day is its hour, minute and second, each in two digits.
pub proof fn the_clock_shows_the_time_of_day(h: nat, m: nat, s: nat)
    requires
        m < 60,
        s < 60,
    ensures
        clock_text(h * 3600 + m * 60 + s) == two_digits(h) + ":"@ + two_digits(m) + ":"@
            + two_digits(s),
{
}

/// Two digits are the number with a zero before it where it has only one.
pub proof fn small_numbers_get_a_zero(n: nat)
    ensures
        n < 10 ==> two_digits(n) == "0"@ + text::dec(n),
        n >= 10 ==> two_digits(n) == text::dec(n),
{
}

/// The second of the day is less than a day, and a whole number of days from
/// the local time.
pub proof fn the_local_second_is_of_this_day(secs: int, offset: int)
    ensures
        second_of_day(secs, offset) < 86_400,
        (secs + offset - second_of_day(secs, offset)) % 86_400 == 0,
{
}

/// A sign, two digits of hours and two of minutes are that many seconds, east
/// of Greenwich positive.
pub proof fn offsets_are_hours_and_minutes(a: u8, b: u8, c: u8, d: u8)
    requires
        a < 10,
        b < 10,
        c < 10,
        d < 10,
    ensures
        ({
            let digits = seq![(a + 48) as u8, (b + 48) as u8, (c + 48) as u8, (d + 48) as u8];
            let seconds = (10 * a + b) * 3600 + (10 * c + d) * 60;
            &&& utc_offset(seq![43u8] + digits) == Some(seconds)
            &&& utc_offset(seq![45u8] + digits) == Some(-seconds)
            &&& utc_offset(digits) is None
        }),
{
}

proof fn coarse_is_near(n: nat, step: nat)
    requires
        step > 0,
        step * 0x10_0000_0000_0000 <= n,
    ensures
        2 * (coarse(n, step) - n) * 0x10_0000_0000_0000 <= n,
        2 * (n - coarse(n, step)) * 0x10_0000_0000_0000 <= n,
    decreases n / step,
{
    if n / step < 0x20_0000_0000_0000 {
        rounding_is_to_the_nearest(n, step);
    } else {
        assert(n / (2 * step) < n / step) by (nonlinear_arith)
            requires
                step > 0,
                n / step > 0,
        ;
        assert((2 * step) * 0x10_0000_0000_0000 <= n) by (nonlinear_arith)
            requires
                step > 0,
                n / step >= 0x20_0000_0000_0000,
        ;
        coarse_is_near(n, 2 * step);
    }
}

/// A figure is taken with 53 bits: exactly where it has no more, and otherwise
/// with an error of less than one part in so many.
pub proof fn figures_have_53_bits(n: nat)
    ensures
        n < 0x20_0000_0000_0000 ==> double(n) == n,
        n >= 0x20_0000_0000_0000 ==> 2 * (double(n) - n) * 0x10_0000_0000_0000 <= n && 2 * (n
            - double(n)) * 0x10_0000_0000_0000 <= n,
{
    if n >= 0x20_0000_0000_0000 {
        coarse_is_near(n, 2);
    }
}

} // verus!
